//! The filesystem operations engine's decisions: create-directory, delete
//! and upload. Each function decides from the facts the caller observed;
//! the caller then performs exactly the returned action, so a rejected
//! request provably performs no filesystem mutation.

use vstd::prelude::*;
use vstd::string::{StrSliceExecFns, StringExecFns};
use crate::paths::{DotPathBuf, ExistenceClass};
use crate::sanitize::{sanitize_string, sanitize_spec, sanitize_file_name, sanitize_file_name_spec};

verus! {

/// Why a directory could not be created.
#[derive(Debug, Clone, Copy, PartialEq, Eq, Structural)]
pub enum CreateError {
    /// An entry of the chosen name already exists under the parent.
    AlreadyExists,
    /// The OS denied the creation.
    PermissionError,
}

/// Why an entry could not be deleted.
#[derive(Debug, Clone, Copy, PartialEq, Eq, Structural)]
pub enum DeleteError {
    /// The path names a tenant's home directory (its parent is the
    /// storage root): never deletable through this operation.
    Forbidden,
    /// The path names nothing.
    NotFound,
    /// The OS denied the removal.
    PermissionError,
}

/// How the caller must remove a deletable entry.
#[derive(Debug, Clone, Copy, PartialEq, Eq, Structural)]
pub enum DeleteAction {
    /// Remove a single file.
    RemoveFile,
    /// Remove a directory and everything below it.
    RemoveDirRecursive,
}

/// Why an upload was rejected or failed.
#[derive(Debug, Clone, Copy, PartialEq, Eq, Structural)]
pub enum UploadError {
    /// Sanitizing the client-supplied file name left nothing.
    InvalidInput,
    /// The destination name is already taken.
    AlreadyExists,
    /// Both the atomic move and the byte-copy fallback failed.
    UploadFailed,
}

/// What an upload does after the atomic move was attempted.
#[derive(Debug, Clone, Copy, PartialEq, Eq, Structural)]
pub enum UploadStep {
    /// The move succeeded; the upload is complete.
    Done,
    /// The move failed (for instance across devices); fall back to a
    /// full byte copy.
    TryCopy,
}

/// The name a create-directory request will use: the sanitized raw name,
/// or the fixed default when sanitizing leaves nothing.
pub fn create_directory_name(raw: &str, whitelist: &str, max_len: usize) -> (r: String)
    ensures
        sanitize_spec(raw@, whitelist@, max_len as nat).len() == 0 ==> r@ == "new_directory"@,
        sanitize_spec(raw@, whitelist@, max_len as nat).len() > 0 ==> r@ == sanitize_spec(
            raw@,
            whitelist@,
            max_len as nat,
        ),
{
    let name = sanitize_string(raw, whitelist, max_len);
    if name.as_str().unicode_len() == 0 {
        String::from_str("new_directory")
    } else {
        name
    }
}

/// Decides a create-directory request once the caller has probed whether
/// an entry of the chosen name already exists under the parent.
pub fn create_directory(target_exists: bool) -> (r: Result<(), CreateError>)
    ensures
        r == (if target_exists {
            Err::<(), CreateError>(CreateError::AlreadyExists)
        } else {
            Ok::<(), CreateError>(())
        }),
{
    if target_exists {
        Err(CreateError::AlreadyExists)
    } else {
        Ok(())
    }
}

/// Decides a delete request. A path whose parent is the storage root (or
/// the root itself) is forbidden outright, whatever exists there; an
/// absent path is not found; everything else is removed according to its
/// class. On every `Err` no action is returned, so nothing is mutated.
pub fn delete(path: &DotPathBuf, class: ExistenceClass) -> (r: Result<DeleteAction, DeleteError>)
    ensures
        path.segs().len() <= 1 ==> r == Err::<DeleteAction, DeleteError>(DeleteError::Forbidden),
        path.segs().len() > 1 ==> r == (match class {
            ExistenceClass::File => Ok::<DeleteAction, DeleteError>(DeleteAction::RemoveFile),
            ExistenceClass::Directory => Ok::<DeleteAction, DeleteError>(
                DeleteAction::RemoveDirRecursive,
            ),
            ExistenceClass::Absent => Err::<DeleteAction, DeleteError>(DeleteError::NotFound),
        }),
{
    if path.depth() <= 1 {
        return Err(DeleteError::Forbidden);
    }
    match class {
        ExistenceClass::File => Ok(DeleteAction::RemoveFile),
        ExistenceClass::Directory => Ok(DeleteAction::RemoveDirRecursive),
        ExistenceClass::Absent => Err(DeleteError::NotFound),
    }
}

/// The destination name of an upload: the file-name sanitizer applied to
/// the client-supplied name; an empty result rejects the upload.
pub fn upload_file_name(raw: &str, whitelist: &str, max_len: usize) -> (r: Result<
    String,
    UploadError,
>)
    ensures
        r is Err <==> sanitize_file_name_spec(raw@, whitelist@, max_len as nat).len() == 0,
        r matches Err(e) ==> e == UploadError::InvalidInput,
        r matches Ok(s) ==> s@ == sanitize_file_name_spec(raw@, whitelist@, max_len as nat),
{
    let name = sanitize_file_name(raw, whitelist, max_len);
    if name.as_str().unicode_len() == 0 {
        Err(UploadError::InvalidInput)
    } else {
        Ok(name)
    }
}

/// Decides an upload once the caller has probed the destination: a taken
/// name is rejected, and nothing is written.
pub fn upload_decide(target_exists: bool) -> (r: Result<(), UploadError>)
    ensures
        r == (if target_exists {
            Err::<(), UploadError>(UploadError::AlreadyExists)
        } else {
            Ok::<(), UploadError>(())
        }),
{
    if target_exists {
        Err(UploadError::AlreadyExists)
    } else {
        Ok(())
    }
}

/// After the atomic move: done on success, else fall back to a byte copy.
pub fn upload_after_move(move_ok: bool) -> (r: UploadStep)
    ensures
        r == (if move_ok {
            UploadStep::Done
        } else {
            UploadStep::TryCopy
        }),
{
    if move_ok {
        UploadStep::Done
    } else {
        UploadStep::TryCopy
    }
}

/// After the byte-copy fallback: only a failure of both paths fails the
/// upload.
pub fn upload_after_copy(copy_ok: bool) -> (r: Result<(), UploadError>)
    ensures
        r == (if copy_ok {
            Ok::<(), UploadError>(())
        } else {
            Err::<(), UploadError>(UploadError::UploadFailed)
        }),
{
    if copy_ok {
        Ok(())
    } else {
        Err(UploadError::UploadFailed)
    }
}

} // verus!
