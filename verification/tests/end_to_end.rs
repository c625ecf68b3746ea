//! The full journey of two users through the backend: register,
//! log in, upload, download, share, and download through the grant.

use sfs::access::{share_file, ShareRequest};
use sfs::repository::{FileRepository, PermissionRepository};
use sfs::service::{AuthUserRepository, LoginRequest, RegisterRequest, SimpleAuthService};
use sfs::token::verify_token;
use sfs::transfer::{
    download_file, process_upload, FileField, ObjectStore, UploadRequest, MAX_UPLOAD_SIZE,
};

const SECRET: &[u8] = b"end-to-end-secret";

fn wall_clock() -> u64 {
    std::time::SystemTime::now()
        .duration_since(std::time::UNIX_EPOCH)
        .unwrap()
        .as_secs()
}

#[test]
fn register_login_upload_share_download() {
    let now = wall_clock();
    let mut svc = SimpleAuthService::new(AuthUserRepository::new(), SECRET.to_vec());
    let mut files = FileRepository::new();
    let mut disk = ObjectStore::new();
    let mut perms = PermissionRepository::new();

    // alice registers and logs in; both yield working token pairs.
    svc.register(
        RegisterRequest { username: "alice".to_string(), password: "password1".to_string() },
        now,
    )
    .unwrap();
    let alice_tokens = svc
        .login(
            LoginRequest { username: "alice".to_string(), password: "password1".to_string() },
            now,
        )
        .unwrap();
    let alice_id = verify_token(&alice_tokens.access_token, SECRET).unwrap().sub;
    assert_eq!(alice_id, 1);

    // A second authenticated user.
    let bob_tokens = svc
        .register(
            RegisterRequest { username: "bob".to_string(), password: "password2".to_string() },
            now,
        )
        .unwrap();
    let bob_id = verify_token(&bob_tokens.access_token, SECRET).unwrap().sub;
    assert_eq!(bob_id, 2);

    // alice uploads ten bytes, private; the store assigns file id 1.
    let content: Vec<u8> = vec![10, 20, 30, 40, 50, 60, 70, 80, 90, 100];
    let upload = process_upload(
        &mut files,
        &mut disk,
        alice_id,
        UploadRequest {
            is_public_field: Some("false".to_string()),
            file_field: Some(FileField {
                filename: Some("ten.bin".to_string()),
                chunks: vec![content.clone()],
            }),
        },
        now as i64,
        MAX_UPLOAD_SIZE,
    )
    .unwrap();
    assert_eq!(upload.file_id, 1);
    assert_eq!(upload.size, 10);
    assert!(!upload.is_public);

    // alice reads her bytes back.
    let mine = download_file(&files, &perms, &disk, alice_id, 1).unwrap();
    assert_eq!(mine.bytes, content);

    // bob, authenticated but neither owner nor grantee, sees the same
    // answer a missing file would give.
    assert!(download_file(&files, &perms, &disk, bob_id, 1).is_none());

    // alice shares file 1 with bob.
    let grant = share_file(
        &files,
        &svc.repo.users,
        &mut perms,
        alice_id,
        1,
        &ShareRequest { user_id: bob_id },
    )
    .unwrap();
    assert_eq!(grant.file_id, 1);
    assert_eq!(grant.user_id, bob_id);
    assert!(grant.permission_id > 0);

    // Now bob can download it.
    let theirs = download_file(&files, &perms, &disk, bob_id, 1).unwrap();
    assert_eq!(theirs.bytes, content);
}
