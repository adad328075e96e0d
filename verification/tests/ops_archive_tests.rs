use rnas::paths::{DotPathBuf, ExistenceClass};
use rnas::ops::{
    create_directory, delete, upload_file_name, upload_decide, upload_after_move,
    upload_after_copy, CreateError, DeleteError, DeleteAction, UploadError, UploadStep,
};
use rnas::archive::{
    zip_plan, zip_artifact_name, zip_finish, unpack_plan, unpack_decide, unpack_finish, ZipError,
    UnpackError,
};
use rnas::hashing::md5_hex;
use md5::Digest;

const WL: &str = "abcdefghijklmnopqrstuvwxyzABCDEFGHIJKLMNOPQRSTUVWXYZ0123456789 ._-";

fn seg(parts: &[&str]) -> Vec<String> {
    let mut v = Vec::new();
    for p in parts {
        v.push(String::from(*p));
    }
    v
}

fn hex_of(bytes: &[u8]) -> String {
    let mut s = String::new();
    for b in bytes {
        s.push_str(&format!("{:02x}", b));
    }
    s
}

#[test]
fn create_directory_respects_existing_entries() {
    assert_eq!(create_directory(true), Err(CreateError::AlreadyExists));
    assert_eq!(create_directory(false), Ok(()));
}

#[test]
fn deleting_a_home_directory_is_forbidden() {
    let home = DotPathBuf::from_segments(&seg(&["alice"])).unwrap();
    assert_eq!(delete(&home, ExistenceClass::Directory), Err(DeleteError::Forbidden));
    assert_eq!(delete(&home, ExistenceClass::File), Err(DeleteError::Forbidden));
    assert_eq!(delete(&home, ExistenceClass::Absent), Err(DeleteError::Forbidden));
}

#[test]
fn deleting_below_a_home_directory_picks_the_action() {
    let p = DotPathBuf::from_segments(&seg(&["alice", "docs"])).unwrap();
    assert_eq!(delete(&p, ExistenceClass::Directory), Ok(DeleteAction::RemoveDirRecursive));
    assert_eq!(delete(&p, ExistenceClass::File), Ok(DeleteAction::RemoveFile));
    assert_eq!(delete(&p, ExistenceClass::Absent), Err(DeleteError::NotFound));
}

#[test]
fn upload_keeps_extensions_and_rejects_empty_names() {
    assert_eq!(upload_file_name("report.pdf", WL, 64).unwrap(), "report.pdf");
    assert_eq!(upload_file_name(" report.pdf ", WL, 64).unwrap(), "report.pdf");
    assert_eq!(upload_file_name("???", WL, 64), Err(UploadError::InvalidInput));
}

#[test]
fn uploading_onto_an_existing_file_changes_nothing() {
    // the collision is rejected before any byte moves
    assert_eq!(upload_decide(true), Err(UploadError::AlreadyExists));
    assert_eq!(upload_decide(false), Ok(()));
}

#[test]
fn upload_falls_back_to_a_copy_only_after_a_failed_move() {
    assert_eq!(upload_after_move(true), UploadStep::Done);
    assert_eq!(upload_after_move(false), UploadStep::TryCopy);
    assert_eq!(upload_after_copy(true), Ok(()));
    assert_eq!(upload_after_copy(false), Err(UploadError::UploadFailed));
}

#[test]
fn zip_artifact_name_is_composed_exactly() {
    assert_eq!(zip_artifact_name("docs", "00ff"), "docs-00ff.zip");
}

#[test]
fn md5_hex_matches_the_digest_crate() {
    assert_eq!(md5_hex(""), "d41d8cd98f00b204e9800998ecf8427e");
    assert_eq!(md5_hex("alice/docs"), hex_of(&md5::Md5::digest("alice/docs".as_bytes())));
}

#[test]
fn two_zip_requests_for_one_directory_share_the_artifact() {
    let dir = DotPathBuf::from_segments(&seg(&["alice", "docs"])).unwrap();
    let expected = format!("docs-{}.zip", hex_of(&md5::Md5::digest("alice/docs".as_bytes())));
    // first request: no stale artifact yet
    let first = zip_plan(&dir, false);
    assert_eq!(first.artifact_name, expected);
    assert!(!first.delete_stale_first);
    // second request: the stale artifact from the first call still exists,
    // and the plan still rebuilds, deleting it first
    let second = zip_plan(&dir, true);
    assert_eq!(second.artifact_name, expected);
    assert!(second.delete_stale_first);
    assert_eq!(zip_finish(true), Ok(()));
    assert_eq!(zip_finish(false), Err(ZipError::InvokeFailed));
}

#[test]
fn unpacking_a_non_zip_name_is_invalid_input() {
    assert!(matches!(unpack_plan("notes.txt", WL, 64), Err(UnpackError::InvalidInput)));
    assert!(matches!(unpack_plan("zip", WL, 64), Err(UnpackError::InvalidInput)));
    assert!(matches!(unpack_plan("", WL, 64), Err(UnpackError::InvalidInput)));
}

#[test]
fn unpack_accepts_zip_names_case_insensitively() {
    let names = unpack_plan("Archive.ZIP", WL, 64).unwrap();
    assert_eq!(names.archive, "Archive.ZIP");
    assert_eq!(names.target, "Archive");
    let names = unpack_plan("bundle.zip", WL, 64).unwrap();
    assert_eq!(names.archive, "bundle.zip");
    assert_eq!(names.target, "bundle");
}

#[test]
fn a_bare_zip_name_keeps_its_hidden_file_form() {
    // ".zip" is a hidden file with no extension, so nothing is chopped
    let names = unpack_plan(".zip", WL, 64).unwrap();
    assert_eq!(names.archive, ".zip");
    assert_eq!(names.target, ".zip");
}

#[test]
fn unpack_checks_source_then_target() {
    assert_eq!(unpack_decide(false, false), Err(UnpackError::NotFound));
    assert_eq!(unpack_decide(false, true), Err(UnpackError::NotFound));
    assert_eq!(unpack_decide(true, true), Err(UnpackError::AlreadyExists));
    assert_eq!(unpack_decide(true, false), Ok(()));
    assert_eq!(unpack_finish(false), Err(UnpackError::InvokeFailed));
    assert_eq!(unpack_finish(true), Ok(()));
}
