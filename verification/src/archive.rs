//! The archive subsystem: on-demand zip bundles of directories and the
//! extraction of uploaded archives, both through external processes that
//! the caller invokes. What is decided here — artifact names, the stale
//! artifact to delete first, the validity checks before an extraction —
//! is verified; the processes themselves are the caller's.

use vstd::prelude::*;
use vstd::string::{StrSliceExecFns, StringExecFns};
use crate::hashing::{md5_hex, md5_of, to_hex_lower};
use crate::paths::{DotPathBuf, join_segments};
use crate::sanitize::{sanitize_string, sanitize_spec};
use crate::strutil::{lower_code, lower_code_ex};

verus! {

/// Why a zip bundle could not be built: the external archiver could not
/// be invoked.
#[derive(Debug, Clone, Copy, PartialEq, Eq, Structural)]
pub enum ZipError {
    InvokeFailed,
}

/// Why an uploaded archive could not be unpacked.
#[derive(Debug, Clone, Copy, PartialEq, Eq, Structural)]
pub enum UnpackError {
    /// The sanitized name is no `.zip` name.
    InvalidInput,
    /// No such archive file exists under the directory.
    NotFound,
    /// The extraction directory already exists.
    AlreadyExists,
    /// The external extractor could not be invoked.
    InvokeFailed,
}

/// The temp artifact name a directory's zip bundle gets: the directory's
/// base name, a dash, the hex MD5 of the joined relative path, `.zip`.
pub open spec fn zip_artifact_spec(dir: Seq<Seq<char>>) -> Seq<char>
    recommends
        dir.len() > 0,
{
    dir.last() + "-"@ + to_hex_lower(md5_of(join_segments(dir))) + ".zip"@
}

/// Composes a temp artifact name from a directory's base name and the
/// hex digest of its path string.
pub fn zip_artifact_name(base: &str, digest_hex: &str) -> (r: String)
    ensures
        r@ == base@ + "-"@ + digest_hex@ + ".zip"@,
{
    let mut name = base.to_owned();
    name.append("-");
    name.append(digest_hex);
    name.append(".zip");
    name
}

/// The plan for one zip download.
pub struct ZipPlan {
    /// The deterministic artifact name inside the temp area.
    pub artifact_name: String,
    /// Whether a stale artifact of that name must be deleted first.
    pub delete_stale_first: bool,
}

/// Plans a zip download: the artifact name is derived from the directory
/// path alone, a stale artifact of the same name is deleted first, and
/// the archiver runs unconditionally — the second request for an
/// unchanged directory plans exactly like the first, stale artifact or
/// not. The name identifies; it never caches.
pub fn zip_plan(dir: &DotPathBuf, artifact_exists: bool) -> (r: ZipPlan)
    requires
        dir.segs().len() > 0,
    ensures
        r.artifact_name@ == zip_artifact_spec(dir.segs()),
        r.delete_stale_first == artifact_exists,
{
    let base = match dir.last_segment() {
        Some(b) => b.clone(),
        None => String::new(),
    };
    let joined = dir.join_string();
    let digest_hex = md5_hex(joined.as_str());
    let artifact_name = zip_artifact_name(base.as_str(), digest_hex.as_str());
    ZipPlan { artifact_name, delete_stale_first: artifact_exists }
}

/// After the archiver ran: an invocation failure is the only zip error.
pub fn zip_finish(invoke_ok: bool) -> (r: Result<(), ZipError>)
    ensures
        r == (if invoke_ok {
            Ok::<(), ZipError>(())
        } else {
            Err::<(), ZipError>(ZipError::InvokeFailed)
        }),
{
    if invoke_ok {
        Ok(())
    } else {
        Err(ZipError::InvokeFailed)
    }
}

/// The name ends in `.zip`, compared case-insensitively.
pub open spec fn ends_in_zip(s: Seq<char>) -> bool {
    &&& s.len() >= 4
    &&& lower_code(s[s.len() - 4]) == '.' as u32
    &&& lower_code(s[s.len() - 3]) == 'z' as u32
    &&& lower_code(s[s.len() - 2]) == 'i' as u32
    &&& lower_code(s[s.len() - 1]) == 'p' as u32
}

/// The extraction directory of an archive name: the name without its
/// `.zip` extension. A bare `.zip` is a hidden file with no extension,
/// so nothing is chopped from it.
pub open spec fn unpack_target_spec(n: Seq<char>) -> Seq<char>
    recommends
        ends_in_zip(n),
{
    if n.len() == 4 {
        n
    } else {
        n.subrange(0, n.len() - 4)
    }
}

/// The two names of one unpack request.
pub struct UnpackNames {
    /// The archive file under the request's directory.
    pub archive: String,
    /// The directory the archive is extracted into.
    pub target: String,
}

/// Validates an unpack request's archive name: the raw name is sanitized
/// under the directory-name rules and must end in `.zip`
/// case-insensitively, else the request is rejected before anything is
/// probed or touched.
pub fn unpack_plan(raw: &str, whitelist: &str, max_len: usize) -> (r: Result<
    UnpackNames,
    UnpackError,
>)
    ensures
        r is Err <==> !ends_in_zip(sanitize_spec(raw@, whitelist@, max_len as nat)),
        r matches Err(e) ==> e == UnpackError::InvalidInput,
        r matches Ok(names) ==> {
            &&& names.archive@ == sanitize_spec(raw@, whitelist@, max_len as nat)
            &&& names.target@ == unpack_target_spec(sanitize_spec(raw@, whitelist@, max_len as nat))
        },
{
    let name = sanitize_string(raw, whitelist, max_len);
    let n = name.as_str().unicode_len();
    if n < 4 {
        return Err(UnpackError::InvalidInput);
    }
    if lower_code_ex(name.as_str().get_char(n - 4)) != 46 || lower_code_ex(
        name.as_str().get_char(n - 3),
    ) != 122 || lower_code_ex(name.as_str().get_char(n - 2)) != 105 || lower_code_ex(
        name.as_str().get_char(n - 1),
    ) != 112 {
        proof {
            assert('.' as u32 == 46);
            assert('z' as u32 == 122);
            assert('i' as u32 == 105);
            assert('p' as u32 == 112);
        }
        return Err(UnpackError::InvalidInput);
    }
    proof {
        assert('.' as u32 == 46);
        assert('z' as u32 == 122);
        assert('i' as u32 == 105);
        assert('p' as u32 == 112);
    }
    let target = if n == 4 {
        name.clone()
    } else {
        name.as_str().substring_char(0, n - 4).to_owned()
    };
    Ok(UnpackNames { archive: name, target })
}

/// Decides an unpack once the caller has probed the two paths: the
/// archive must exist as a file, and the extraction directory must not
/// exist at all.
pub fn unpack_decide(source_is_file: bool, target_exists: bool) -> (r: Result<(), UnpackError>)
    ensures
        r == (if !source_is_file {
            Err::<(), UnpackError>(UnpackError::NotFound)
        } else if target_exists {
            Err::<(), UnpackError>(UnpackError::AlreadyExists)
        } else {
            Ok::<(), UnpackError>(())
        }),
{
    if !source_is_file {
        Err(UnpackError::NotFound)
    } else if target_exists {
        Err(UnpackError::AlreadyExists)
    } else {
        Ok(())
    }
}

/// After the extractor ran: an invocation failure is the only unpack
/// error left.
pub fn unpack_finish(invoke_ok: bool) -> (r: Result<(), UnpackError>)
    ensures
        r == (if invoke_ok {
            Ok::<(), UnpackError>(())
        } else {
            Err::<(), UnpackError>(UnpackError::InvokeFailed)
        }),
{
    if invoke_ok {
        Ok(())
    } else {
        Err(UnpackError::InvokeFailed)
    }
}

} // verus!
