use sfs::client::{require_access, require_refresh, TokenStore};
use sfs::models::{File, FileError, Permission, PermissionType, User, UserError};
use sfs::repository::{FileRepository, PermissionRepository, UserRepository};
use sfs::text::{
    bearer_token, content_disposition, final_upload_path, is_blank, parse_public_flag,
    prefix_before_dot, sanitize_filename, str_ends_with, u64_to_string,
};

#[test]
fn public_flag_accepts_the_four_words_in_any_case() {
    for s in ["1", "true", "yes", "on", "TRUE", "Yes", "ON", " 1 ", "\ttrue\n", "yEs"] {
        assert!(parse_public_flag(s), "expected truthy: {:?}", s);
    }
    for s in ["", "0", "false", "no", "off", "nope", "  ", "truee", "1 1", "o n"] {
        assert!(!parse_public_flag(s), "expected falsy: {:?}", s);
    }
}

#[test]
fn blankness_is_whitespace_only() {
    assert!(is_blank(""));
    assert!(is_blank(" \t\r\n"));
    assert!(!is_blank(" a "));
}

#[test]
fn decimal_rendering_is_exact() {
    assert_eq!(u64_to_string(0), "0");
    assert_eq!(u64_to_string(7), "7");
    assert_eq!(u64_to_string(1234567890), "1234567890");
    assert_eq!(u64_to_string(u64::MAX), "18446744073709551615");
}

#[test]
fn final_path_derives_from_file_id() {
    assert_eq!(final_upload_path(1), "data/uploads/1.bin");
    assert_eq!(final_upload_path(42), "data/uploads/42.bin");
}

#[test]
fn sanitizer_replaces_quotes_only() {
    assert_eq!(sanitize_filename("plain.txt"), "plain.txt");
    assert_eq!(sanitize_filename("a\"b\"c"), "a_b_c");
    assert_eq!(sanitize_filename("\"\""), "__");
    assert_eq!(content_disposition("a\"b.txt"), "attachment; filename=\"a_b.txt\"");
}

#[test]
fn bearer_parsing_is_exact() {
    assert_eq!(bearer_token("Bearer abc"), Some("abc"));
    assert_eq!(bearer_token("Bearer "), Some(""));
    assert_eq!(bearer_token("bearer abc"), None);
    assert_eq!(bearer_token("Token abc"), None);
    assert_eq!(bearer_token("Bear"), None);
}

#[test]
fn suffix_and_prefix_helpers() {
    assert!(str_ends_with("archive.tar.gz", ".gz"));
    assert!(!str_ends_with("archive.tar.gz", ".zip"));
    assert!(str_ends_with("x", ""));
    assert!(!str_ends_with("", "x"));
    assert_eq!(prefix_before_dot("archive.tar.gz"), "archive");
    assert_eq!(prefix_before_dot("noext"), "noext");
    assert_eq!(prefix_before_dot(".hidden"), "");
}

#[test]
fn user_validation_rules() {
    let user = User::new(1, "al".to_string(), "h".to_string());
    assert!(matches!(user.validate_username(), Err(UserError::UsernameTooShort)));
    let user = User::new(1, "".to_string(), "h".to_string());
    assert!(matches!(user.validate_username(), Err(UserError::InvalidUsername(_))));
    let user = User::new(1, "alice".to_string(), "".to_string());
    assert!(user.validate_username().is_ok());
    assert!(matches!(user.validate_password(), Err(UserError::EmptyPassword)));
    assert_eq!(user.username_length(), 5);
}

#[test]
fn user_state_changes() {
    let mut user = User::new(1, "alice".to_string(), "h".to_string());
    assert!(user.is_active());
    user.deactivate();
    assert!(!user.is_active());
    user.activate();
    assert!(user.is_active());
    user.update_password("h2".to_string());
    assert_eq!(user.password_hash, "h2");
    assert!(user.get_email().is_none());
    user.set_email("a@example.org".to_string());
    assert_eq!(user.get_email().unwrap(), "a@example.org");
}

#[test]
fn file_validation_rules() {
    let file = File::new(1, "photo.jpeg".to_string(), 2500, 7);
    assert!(file.is_owned_by(7));
    assert!(!file.is_owned_by(8));
    assert_eq!(file.size_in_kb(), 2);
    assert!(file.validate_size(2500).is_ok());
    assert!(matches!(file.validate_size(2499), Err(FileError::ExceedsSizeLimit(2500))));
    assert!(file.validate_extension(&[".png", ".jpeg"]).is_ok());
    assert!(matches!(
        file.validate_extension(&[".png"]),
        Err(FileError::InvalidExtension(_))
    ));
    assert!(file.validate_filename().is_ok());
    assert_eq!(file.filename_without_extension(), "photo");
    let empty = File::new(2, "".to_string(), 1, 7);
    assert!(matches!(empty.validate_filename(), Err(FileError::EmptyFileName)));
}

#[test]
fn file_description_round_trip() {
    let mut file = File::new(1, "a.txt".to_string(), 1, 1);
    assert!(file.get_description().is_none());
    file.set_description("notes".to_string());
    assert_eq!(file.get_description().unwrap(), "notes");
}

#[test]
fn permission_kind() {
    let p = Permission::new(1, 2, 3, PermissionType::Owner);
    assert!(p.is_owner());
    assert_eq!(p.id, 1);
    assert_eq!(p.file_id, 2);
    assert_eq!(p.user_id, 3);
    let s = Permission::new(2, 2, 4, PermissionType::Shared);
    assert!(!s.is_owner());
    let pb = Permission::new(3, 2, 5, PermissionType::Public);
    assert!(!pb.is_owner());
}

#[test]
fn user_repository_lookups() {
    let mut repo = UserRepository::new();
    assert_eq!(repo.count(), 0);
    repo.add(User::new(1, "alice".to_string(), "h1".to_string()));
    let mut bob = User::new(2, "bob".to_string(), "h2".to_string());
    bob.deactivate();
    repo.add(bob);
    assert_eq!(repo.count(), 2);
    assert_eq!(repo.find_by_id(1).unwrap().username, "alice");
    assert!(repo.find_by_id(3).is_none());
    assert_eq!(repo.find_by_username("bob").unwrap().id, 2);
    assert!(repo.find_by_username("carol").is_none());
    let active = repo.get_active_users();
    assert_eq!(active.len(), 1);
    assert_eq!(active[0].username, "alice");
}

#[test]
fn file_repository_lookups() {
    let mut repo = FileRepository::new();
    repo.add(File::new(1, "a.txt".to_string(), 1, 7));
    repo.add(File::new(2, "b.txt".to_string(), 2, 8));
    repo.add(File::new(3, "c.txt".to_string(), 3, 7));
    assert_eq!(repo.count(), 3);
    assert_eq!(repo.find_by_id(2).unwrap().filename, "b.txt");
    assert!(repo.find_by_id(9).is_none());
    let mine = repo.find_by_owner(7);
    assert_eq!(mine.len(), 2);
    assert_eq!(mine[0].id, 1);
    assert_eq!(mine[1].id, 3);
    repo.remove(1);
    assert_eq!(repo.count(), 2);
    assert!(repo.find_by_id(1).is_none());
}

#[test]
fn permission_repository_lookups() {
    let mut repo = PermissionRepository::new();
    repo.add(Permission::new(1, 10, 100, PermissionType::Shared));
    repo.add(Permission::new(2, 10, 101, PermissionType::Shared));
    repo.add(Permission::new(3, 11, 100, PermissionType::Shared));
    assert_eq!(repo.count(), 3);
    assert_eq!(repo.find_by_id(2).unwrap().user_id, 101);
    assert!(repo.find_by_id(9).is_none());
    assert_eq!(repo.find_by_file(10).len(), 2);
    assert_eq!(repo.find_by_user(100).len(), 2);
    assert!(repo.user_has_access(101, 10));
    assert!(!repo.user_has_access(101, 11));
    repo.remove(2);
    assert!(!repo.user_has_access(101, 10));
    assert_eq!(repo.count(), 2);
}

#[test]
fn store_assigned_ids_grow_from_one() {
    let mut repo = FileRepository::new();
    let a = repo.insert_new("a".to_string(), 1, 1, false, 0).unwrap();
    let b = repo.insert_new("b".to_string(), 1, 1, false, 0).unwrap();
    assert_eq!(a, 1);
    assert_eq!(b, 2);
    repo.remove(2);
    let c = repo.insert_new("c".to_string(), 1, 1, false, 0).unwrap();
    assert_eq!(c, 2);
}

#[test]
fn token_store_checks() {
    let empty = TokenStore { access_token: String::new(), refresh_token: String::new() };
    assert!(require_access(&empty).is_none());
    assert!(require_refresh(&empty).is_none());
    let full = TokenStore { access_token: "acc".to_string(), refresh_token: "ref".to_string() };
    assert_eq!(require_access(&full), Some("acc"));
    assert_eq!(require_refresh(&full), Some("ref"));
}
