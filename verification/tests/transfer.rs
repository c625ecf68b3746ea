use sfs::repository::{FileRepository, PermissionRepository};
use sfs::transfer::{
    download_file, download_public, process_upload, FileField, ObjectStore, UploadError,
    UploadRequest, MAX_UPLOAD_SIZE,
};

fn request(filename: Option<&str>, chunks: Vec<Vec<u8>>, flag: Option<&str>) -> UploadRequest {
    UploadRequest {
        is_public_field: flag.map(|f| f.to_string()),
        file_field: Some(FileField { filename: filename.map(|f| f.to_string()), chunks }),
    }
}

#[test]
fn upload_commits_and_downloads() {
    let mut files = FileRepository::new();
    let mut disk = ObjectStore::new();
    let perms = PermissionRepository::new();

    let resp = process_upload(
        &mut files,
        &mut disk,
        1,
        request(Some("notes.txt"), vec![vec![1, 2, 3], vec![4, 5]], None),
        0,
        MAX_UPLOAD_SIZE,
    )
    .unwrap();

    assert_eq!(resp.file_id, 1);
    assert_eq!(resp.filename, "notes.txt");
    assert_eq!(resp.size, 5);
    assert!(!resp.is_public);
    assert_eq!(files.count(), 1);
    assert_eq!(disk.count(), 1);

    let reply = download_file(&files, &perms, &disk, 1, resp.file_id).unwrap();
    assert_eq!(reply.bytes, vec![1, 2, 3, 4, 5]);
    assert_eq!(reply.filename, "notes.txt");
    assert_eq!(reply.content_disposition, "attachment; filename=\"notes.txt\"");
}

#[test]
fn oversized_upload_leaves_nothing_behind() {
    let mut files = FileRepository::new();
    let mut disk = ObjectStore::new();

    let big = vec![0u8; 600];
    let r = process_upload(
        &mut files,
        &mut disk,
        1,
        request(Some("big.bin"), vec![big.clone(), big], None),
        0,
        1000,
    );

    assert!(matches!(r, Err(UploadError::PayloadTooLarge)));
    assert_eq!(files.count(), 0);
    assert_eq!(disk.count(), 0);
}

#[test]
fn upload_at_exact_budget_succeeds() {
    let mut files = FileRepository::new();
    let mut disk = ObjectStore::new();
    let r = process_upload(
        &mut files,
        &mut disk,
        1,
        request(Some("edge.bin"), vec![vec![7u8; 1000]], None),
        0,
        1000,
    );
    assert_eq!(r.unwrap().size, 1000);
}

#[test]
fn upload_without_file_field_is_bad_request() {
    let mut files = FileRepository::new();
    let mut disk = ObjectStore::new();
    let r = process_upload(
        &mut files,
        &mut disk,
        1,
        UploadRequest { is_public_field: None, file_field: None },
        0,
        MAX_UPLOAD_SIZE,
    );
    assert!(matches!(r, Err(UploadError::BadRequest)));
    assert_eq!(files.count(), 0);
    assert_eq!(disk.count(), 0);
}

#[test]
fn upload_without_filename_is_bad_request() {
    let mut files = FileRepository::new();
    let mut disk = ObjectStore::new();
    let r = process_upload(
        &mut files,
        &mut disk,
        1,
        request(None, vec![vec![1, 2]], None),
        0,
        MAX_UPLOAD_SIZE,
    );
    assert!(matches!(r, Err(UploadError::BadRequest)));
    assert_eq!(files.count(), 0);
    assert_eq!(disk.count(), 0);
}

#[test]
fn upload_reads_public_flag() {
    let mut files = FileRepository::new();
    let mut disk = ObjectStore::new();
    let public = process_upload(
        &mut files,
        &mut disk,
        1,
        request(Some("a.bin"), vec![vec![1]], Some(" TRUE ")),
        0,
        MAX_UPLOAD_SIZE,
    )
    .unwrap();
    assert!(public.is_public);
    let private = process_upload(
        &mut files,
        &mut disk,
        1,
        request(Some("b.bin"), vec![vec![2]], Some("0")),
        0,
        MAX_UPLOAD_SIZE,
    )
    .unwrap();
    assert!(!private.is_public);
}

#[test]
fn concurrent_style_uploads_get_distinct_ids() {
    let mut files = FileRepository::new();
    let mut disk = ObjectStore::new();
    let a = process_upload(
        &mut files,
        &mut disk,
        1,
        request(Some("a.bin"), vec![vec![1]], None),
        0,
        MAX_UPLOAD_SIZE,
    )
    .unwrap();
    let b = process_upload(
        &mut files,
        &mut disk,
        2,
        request(Some("b.bin"), vec![vec![2]], None),
        0,
        MAX_UPLOAD_SIZE,
    )
    .unwrap();
    assert_ne!(a.file_id, b.file_id);
    assert_eq!(files.count(), 2);
    assert_eq!(disk.count(), 2);
}

#[test]
fn download_of_missing_object_is_refused() {
    // A metadata row without backing bytes is reported as absent:
    // the defensive consistency rule.
    let mut files = FileRepository::new();
    let disk = ObjectStore::new();
    let perms = PermissionRepository::new();
    let id = files.insert_new("ghost.bin".to_string(), 3, 1, true, 0).unwrap();
    assert!(download_file(&files, &perms, &disk, 1, id).is_none());
    assert!(download_public(&files, &disk, id).is_none());
}

#[test]
fn public_download_needs_no_identity_and_respects_flag() {
    let mut files = FileRepository::new();
    let mut disk = ObjectStore::new();
    let public = process_upload(
        &mut files,
        &mut disk,
        1,
        request(Some("open.bin"), vec![vec![9, 9]], Some("yes")),
        0,
        MAX_UPLOAD_SIZE,
    )
    .unwrap();
    let private = process_upload(
        &mut files,
        &mut disk,
        1,
        request(Some("closed.bin"), vec![vec![8]], None),
        0,
        MAX_UPLOAD_SIZE,
    )
    .unwrap();

    let open = download_public(&files, &disk, public.file_id).unwrap();
    assert_eq!(open.bytes, vec![9, 9]);
    assert!(download_public(&files, &disk, private.file_id).is_none());
    assert!(download_public(&files, &disk, 99).is_none());
}

#[test]
fn download_header_neutralizes_quotes() {
    let mut files = FileRepository::new();
    let mut disk = ObjectStore::new();
    let perms = PermissionRepository::new();
    let resp = process_upload(
        &mut files,
        &mut disk,
        1,
        request(Some("we\"ird.txt"), vec![vec![1]], None),
        0,
        MAX_UPLOAD_SIZE,
    )
    .unwrap();
    let reply = download_file(&files, &perms, &disk, 1, resp.file_id).unwrap();
    assert_eq!(reply.filename, "we\"ird.txt");
    assert_eq!(reply.content_disposition, "attachment; filename=\"we_ird.txt\"");
}
