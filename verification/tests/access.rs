use sfs::access::{
    revoke_share, revoke_share_by_user, share_file, FileService, ShareError, ShareRequest,
};
use sfs::models::User;
use sfs::repository::{FileRepository, PermissionRepository, UserRepository};

fn users_with(ids: &[u32]) -> UserRepository {
    let mut users = UserRepository::new();
    for &id in ids {
        users.add(User::new(id, format!("user{}", id), format!("hash{}", id)));
    }
    users
}

/// A file store holding one private file per (id, owner) pair given.
fn files_with(entries: &[(u32, u32)]) -> FileRepository {
    let mut files = FileRepository::new();
    for &(id, owner) in entries {
        let mut f = sfs::models::File::new(id, format!("file{}.bin", id), 3, owner);
        f.uploaded_at = 0;
        files.add(f);
    }
    files
}

#[test]
fn share_grants_then_conflicts_then_regrants_after_revoke() {
    let users = users_with(&[1, 2]);
    let files = files_with(&[(1, 1)]);
    let mut perms = PermissionRepository::new();

    let grant = share_file(&files, &users, &mut perms, 1, 1, &ShareRequest { user_id: 2 })
        .unwrap();
    assert_eq!(grant.file_id, 1);
    assert_eq!(grant.user_id, 2);
    assert_eq!(grant.permission_id, 1);

    let again = share_file(&files, &users, &mut perms, 1, 1, &ShareRequest { user_id: 2 });
    assert!(matches!(again, Err(ShareError::Conflict)));

    revoke_share_by_user(&files, &mut perms, 1, 1, 2).unwrap();

    let regrant = share_file(&files, &users, &mut perms, 1, 1, &ShareRequest { user_id: 2 });
    assert!(regrant.is_ok());
}

#[test]
fn share_with_unknown_target_is_not_found() {
    let users = users_with(&[1]);
    let files = files_with(&[(1, 1)]);
    let mut perms = PermissionRepository::new();
    let r = share_file(&files, &users, &mut perms, 1, 1, &ShareRequest { user_id: 99 });
    assert!(matches!(r, Err(ShareError::NotFound)));
    assert_eq!(perms.count(), 0);
}

#[test]
fn share_by_non_owner_is_not_found() {
    let users = users_with(&[1, 2, 3]);
    let files = files_with(&[(1, 1)]);
    let mut perms = PermissionRepository::new();
    let r = share_file(&files, &users, &mut perms, 2, 1, &ShareRequest { user_id: 3 });
    assert!(matches!(r, Err(ShareError::NotFound)));
}

#[test]
fn share_of_missing_file_is_not_found() {
    let users = users_with(&[1, 2]);
    let files = files_with(&[]);
    let mut perms = PermissionRepository::new();
    let r = share_file(&files, &users, &mut perms, 1, 7, &ShareRequest { user_id: 2 });
    assert!(matches!(r, Err(ShareError::NotFound)));
}

#[test]
fn revoke_by_permission_id_checks_file_and_owner() {
    let users = users_with(&[1, 2]);
    let files = files_with(&[(1, 1), (2, 2)]);
    let mut perms = PermissionRepository::new();
    let grant = share_file(&files, &users, &mut perms, 1, 1, &ShareRequest { user_id: 2 })
        .unwrap();

    // The permission belongs to file 1: revoking it through file 2 fails.
    let wrong_file = revoke_share(&files, &mut perms, 2, 2, grant.permission_id);
    assert!(matches!(wrong_file, Err(ShareError::NotFound)));

    // A non-owner cannot revoke it either.
    let wrong_owner = revoke_share(&files, &mut perms, 2, 1, grant.permission_id);
    assert!(matches!(wrong_owner, Err(ShareError::NotFound)));

    // The owner can.
    assert!(revoke_share(&files, &mut perms, 1, 1, grant.permission_id).is_ok());
    assert_eq!(perms.count(), 0);

    // And a second revoke finds nothing.
    let gone = revoke_share(&files, &mut perms, 1, 1, grant.permission_id);
    assert!(matches!(gone, Err(ShareError::NotFound)));
}

#[test]
fn revoke_by_user_without_grant_is_not_found() {
    let users = users_with(&[1, 2]);
    let files = files_with(&[(1, 1)]);
    let mut perms = PermissionRepository::new();
    let r = revoke_share_by_user(&files, &mut perms, 1, 1, 2);
    assert!(matches!(r, Err(ShareError::NotFound)));
}

#[test]
fn private_file_and_missing_file_are_indistinguishable() {
    // User 2 neither owns file 1 nor holds a grant on it; file 99 does
    // not exist. Both requests resolve to the very same outcome.
    let files = files_with(&[(1, 1)]);
    let perms = PermissionRepository::new();
    let service = FileService::new(&files, &perms);
    let existing_private = service.get_for_download(2, 1);
    let missing = service.get_for_download(2, 99);
    assert!(existing_private.is_none());
    assert!(missing.is_none());
}

#[test]
fn owner_and_grantee_can_download_others_cannot() {
    let users = users_with(&[1, 2, 3]);
    let files = files_with(&[(1, 1)]);
    let mut perms = PermissionRepository::new();
    share_file(&files, &users, &mut perms, 1, 1, &ShareRequest { user_id: 2 }).unwrap();

    let service = FileService::new(&files, &perms);
    assert!(service.get_for_download(1, 1).is_some());
    assert!(service.get_for_download(2, 1).is_some());
    assert!(service.get_for_download(3, 1).is_none());
    assert!(service.can_download(1, 1));
    assert!(service.can_download(2, 1));
    assert!(!service.can_download(3, 1));
}

#[test]
fn public_flag_alone_gates_public_download() {
    let mut files = FileRepository::new();
    let public_id = files.insert_new("pub.bin".to_string(), 3, 1, true, 0).unwrap();
    let private_id = files.insert_new("priv.bin".to_string(), 3, 1, false, 0).unwrap();
    let perms = PermissionRepository::new();
    let service = FileService::new(&files, &perms);

    assert!(service.get_public_for_download(public_id).is_some());
    assert!(service.get_public_for_download(private_id).is_none());
    assert!(service.get_public_for_download(99).is_none());
}

#[test]
fn public_download_refused_once_flag_is_cleared() {
    // The same file id, public first, then rebuilt private: the public
    // endpoint answers Some, then None.
    let mut files = FileRepository::new();
    let id = files.insert_new("flip.bin".to_string(), 3, 1, true, 0).unwrap();
    let perms = PermissionRepository::new();
    {
        let service = FileService::new(&files, &perms);
        assert!(service.get_public_for_download(id).is_some());
    }
    let mut files2 = FileRepository::new();
    let id2 = files2.insert_new("flip.bin".to_string(), 3, 1, false, 0).unwrap();
    assert_eq!(id, id2);
    let service = FileService::new(&files2, &perms);
    assert!(service.get_public_for_download(id2).is_none());
}
