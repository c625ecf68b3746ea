use sfs::service::{
    AuthError, AuthService, AuthTokenResponse, AuthUserRepository, LoginRequest, RegisterRequest,
    SimpleAuthService,
};
use sfs::token::{create_token, verify_token};

const NOW: u64 = 1_700_000_000;

fn service() -> SimpleAuthService {
    SimpleAuthService::new(AuthUserRepository::new(), b"unit-test-secret".to_vec())
}

fn register_req(username: &str, password: &str) -> RegisterRequest {
    RegisterRequest { username: username.to_string(), password: password.to_string() }
}

fn login_req(username: &str, password: &str) -> LoginRequest {
    LoginRequest { username: username.to_string(), password: password.to_string() }
}

#[test]
fn register_issues_tokens() {
    let mut svc = service();
    let resp: AuthTokenResponse = svc.register(register_req("alice", "password1"), NOW).unwrap();
    assert_eq!(resp.expires_in, 3600);
    assert_eq!(resp.refresh_token.len(), 36);
    assert!(!resp.access_token.is_empty());
}

#[test]
fn register_rejects_blank_username() {
    let mut svc = service();
    let r = svc.register(register_req("   ", "password1"), NOW);
    assert!(matches!(r, Err(AuthError::EmptyUsername)));
}

#[test]
fn register_rejects_short_password() {
    let mut svc = service();
    let r = svc.register(register_req("alice", "short"), NOW);
    assert!(matches!(r, Err(AuthError::WeakPassword)));
}

#[test]
fn register_twice_conflicts() {
    let mut svc = service();
    svc.register(register_req("alice", "password1"), NOW).unwrap();
    let second = svc.register(register_req("alice", "password2"), NOW);
    assert!(matches!(second, Err(AuthError::UsernameTaken)));
    // The original record is untouched: the first password still logs in,
    // the second never does.
    assert!(svc.login(login_req("alice", "password1"), NOW).is_ok());
    assert!(matches!(
        svc.login(login_req("alice", "password2"), NOW),
        Err(AuthError::InvalidCredentials)
    ));
}

#[test]
fn login_accepts_correct_password() {
    let mut svc = service();
    svc.register(register_req("alice", "password1"), NOW).unwrap();
    let resp = svc.login(login_req("alice", "password1"), NOW).unwrap();
    assert_eq!(resp.expires_in, 3600);
}

#[test]
fn login_rejects_wrong_password_and_unknown_user_alike() {
    let mut svc = service();
    svc.register(register_req("alice", "password1"), NOW).unwrap();
    let wrong = svc.login(login_req("alice", "wrongpass"), NOW);
    let unknown = svc.login(login_req("nobody", "password1"), NOW);
    assert!(matches!(wrong, Err(AuthError::InvalidCredentials)));
    assert!(matches!(unknown, Err(AuthError::InvalidCredentials)));
}

#[test]
fn refresh_rotates_token() {
    let mut svc = service();
    let first = svc.register(register_req("alice", "password1"), NOW).unwrap();
    let second = svc.refresh(first.refresh_token.clone(), NOW + 10).unwrap();
    assert_ne!(first.refresh_token, second.refresh_token);
    assert_eq!(second.refresh_token.len(), 36);
}

#[test]
fn refresh_rejects_reused_token() {
    let mut svc = service();
    let first = svc.register(register_req("alice", "password1"), NOW).unwrap();
    let rotated = svc.refresh(first.refresh_token.clone(), NOW + 10);
    assert!(rotated.is_ok());
    let replay = svc.refresh(first.refresh_token.clone(), NOW + 20);
    assert!(matches!(replay, Err(AuthError::InvalidRefreshToken)));
}

#[test]
fn two_rotations_of_one_token_have_one_winner() {
    let mut svc = service();
    let first = svc.register(register_req("alice", "password1"), NOW).unwrap();
    let a = svc.refresh(first.refresh_token.clone(), NOW + 1);
    let b = svc.refresh(first.refresh_token.clone(), NOW + 2);
    let successes = [a.is_ok(), b.is_ok()].iter().filter(|&&ok| ok).count();
    assert_eq!(successes, 1);
}

#[test]
fn refresh_rejects_unknown_token() {
    let mut svc = service();
    svc.register(register_req("alice", "password1"), NOW).unwrap();
    let r = svc.refresh("not-a-token".to_string(), NOW + 1);
    assert!(matches!(r, Err(AuthError::InvalidRefreshToken)));
}

#[test]
fn login_revokes_previous_refresh_token() {
    // One active session lineage per user: a new login retires the
    // refresh token of the previous one.
    let mut svc = service();
    let first = svc.register(register_req("alice", "password1"), NOW).unwrap();
    let _second = svc.login(login_req("alice", "password1"), NOW + 5).unwrap();
    let replay = svc.refresh(first.refresh_token, NOW + 10);
    assert!(matches!(replay, Err(AuthError::InvalidRefreshToken)));
}

fn wall_clock() -> u64 {
    std::time::SystemTime::now()
        .duration_since(std::time::UNIX_EPOCH)
        .unwrap()
        .as_secs()
}

#[test]
fn access_token_round_trip() {
    let secret = b"unit-test-secret";
    let now = wall_clock();
    let token = create_token(7, now, secret).unwrap();
    let claims = verify_token(&token, secret).unwrap();
    assert_eq!(claims.sub, 7);
    assert_eq!(claims.iat, now);
    assert_eq!(claims.exp, now + 3600);
    assert_eq!(claims.jti.len(), 36);
}

#[test]
fn access_token_rejects_wrong_secret() {
    let token = create_token(7, wall_clock(), b"secret-one").unwrap();
    assert!(verify_token(&token, b"secret-two").is_err());
}

#[test]
fn access_token_rejects_expired() {
    // Issued at the epoch, so its expiry lies decades in the past.
    let token = create_token(7, 0, b"unit-test-secret").unwrap();
    assert!(verify_token(&token, b"unit-test-secret").is_err());
}

#[test]
fn access_token_rejects_garbage() {
    assert!(verify_token("definitely.not.ajwt", b"unit-test-secret").is_err());
}

#[test]
fn login_reports_unreadable_stored_hash() {
    // A record whose stored hash is not an encoded Argon2 string is the
    // one path to a verification error; it is never conflated with the
    // invalid-credentials answer.
    let mut svc = service();
    svc.repo.create("mallory".to_string(), "not-an-encoded-hash".to_string()).unwrap();
    let r = svc.login(login_req("mallory", "password1"), NOW);
    assert!(matches!(r, Err(AuthError::VerificationFailed)));
}

#[test]
fn logout_revokes_refresh_token() {
    let mut svc = service();
    let tokens = svc.register(register_req("alice", "password1"), NOW).unwrap();
    svc.logout(1, NOW + 1);
    let replay = svc.refresh(tokens.refresh_token, NOW + 2);
    assert!(matches!(replay, Err(AuthError::InvalidRefreshToken)));
}

#[test]
fn trait_interface_matches_inherent_behaviour() {
    let mut svc = service();
    let r = AuthService::register(&mut svc, register_req("alice", "password1"), NOW);
    assert!(r.is_ok());
    let l = AuthService::login(&mut svc, login_req("alice", "password1"), NOW);
    assert!(l.is_ok());
    let bad = AuthService::refresh(&mut svc, "nope".to_string(), NOW);
    assert!(matches!(bad, Err(AuthError::InvalidRefreshToken)));
}
