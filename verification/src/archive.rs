//! Archive format detection and related file-name logic.  The extraction
//! itself (reading the archive, writing its entries) is I/O and stays with
//! the caller; this module decides which extractor applies and how names
//! are derived.
use crate::errors::AppError;
use crate::text::{ends_with_ic, spec_ends_with_ic};
use vstd::prelude::*;

verus! {

/// The archive formats the application can unpack.
#[derive(Clone, Copy, Debug, PartialEq, Eq, Structural)]
pub enum ArchiveKind {
    Zip,
    TarGz,
}

/// The file name names a zip archive: a `.zip` extension (in any case)
/// behind a non-empty stem.
pub open spec fn spec_is_zip(name: Seq<char>) -> bool {
    name.len() > 4 && spec_ends_with_ic(name, ".zip"@)
}

/// Checks for a `.zip` extension, ignoring case.
pub fn is_zip(name: &str) -> (r: bool)
    ensures
        r == spec_is_zip(name@),
{
    name.unicode_len() > 4 && ends_with_ic(name, ".zip")
}

/// The file name names a gzipped tar archive: it ends in `.tar.gz` or
/// `.tgz`, in any case.
pub open spec fn spec_is_tgz(name: Seq<char>) -> bool {
    spec_ends_with_ic(name, ".tar.gz"@) || spec_ends_with_ic(name, ".tgz"@)
}

/// Checks for a `.tar.gz` or `.tgz` suffix, ignoring case.
pub fn is_tgz(name: &str) -> (r: bool)
    ensures
        r == spec_is_tgz(name@),
{
    ends_with_ic(name, ".tar.gz") || ends_with_ic(name, ".tgz")
}

/// The file name of the managed executable on the given platform.
pub fn frpc_name(windows: bool) -> (r: &'static str)
    ensures
        windows ==> r@ == "frpc.exe"@,
        !windows ==> r@ == "frpc"@,
{
    if windows {
        "frpc.exe"
    } else {
        "frpc"
    }
}

/// Decides which extractor handles the archive: zip archives first, then
/// gzipped tars; anything else is refused with a typed error.  The caller
/// runs the chosen extractor on the file.
pub fn extract_archive_to(name: &str) -> (r: Result<ArchiveKind, AppError>)
    ensures
        spec_is_zip(name@) ==> r == Result::<ArchiveKind, AppError>::Ok(ArchiveKind::Zip),
        !spec_is_zip(name@) && spec_is_tgz(name@) ==> r == Result::<ArchiveKind, AppError>::Ok(
            ArchiveKind::TarGz,
        ),
        !spec_is_zip(name@) && !spec_is_tgz(name@) ==> r is Err && (r->Err_0 matches
        AppError::Other(m) && m@ == "unsupported archive (only .zip / .tar.gz / .tgz)"@),
{
    if is_zip(name) {
        Result::Ok(ArchiveKind::Zip)
    } else if is_tgz(name) {
        Result::Ok(ArchiveKind::TarGz)
    } else {
        Result::Err(
            AppError::Other("unsupported archive (only .zip / .tar.gz / .tgz)".to_owned()),
        )
    }
}

/// The directory under the data directory that downloads land in.
pub const DOWNLOAD_ROOT: &'static str = "downloads";

/// The path of the directory an archive is unpacked into: the download
/// directory, then the archive's stem.
pub fn unpack_dir_for(data_dir: &str, name: &str) -> (r: String)
    ensures
        r@ == data_dir@ + "/downloads/"@ + spec_archive_stem(name@),
{
    let mut out = data_dir.to_owned();
    out.append("/downloads/");
    let stem = archive_stem(name);
    out.append(stem.as_str());
    out
}

/// The last position of `.` in the name, if any.
pub open spec fn spec_last_dot(s: Seq<char>) -> Option<int>
    decreases s.len(),
{
    if s.len() == 0 {
        Option::None
    } else if s.last() == '.' {
        Option::Some(s.len() - 1)
    } else {
        spec_last_dot(s.drop_last())
    }
}

/// The stem the unpack directory is named after: the archive name without
/// its `.tar.gz` / `.tgz` suffix (ignoring case), else without whatever
/// follows the last `.`, else the whole name.
pub open spec fn spec_archive_stem(s: Seq<char>) -> Seq<char> {
    if spec_ends_with_ic(s, ".tar.gz"@) {
        s.take(s.len() - 7)
    } else if spec_ends_with_ic(s, ".tgz"@) {
        s.take(s.len() - 4)
    } else {
        match spec_last_dot(s) {
            Option::Some(i) => s.take(i),
            Option::None => s,
        }
    }
}

proof fn lemma_last_dot_is(s: Seq<char>, k: int)
    requires
        0 <= k <= s.len(),
        forall|j: int| k <= j < s.len() ==> s[j] != '.',
        k > 0 ==> s[k - 1] == '.',
    ensures
        k > 0 ==> spec_last_dot(s) == Option::Some(k - 1),
        k == 0 ==> spec_last_dot(s) is None,
    decreases s.len(),
{
    if s.len() == 0 {
    } else if s.last() == '.' {
        assert(k == s.len());
    } else {
        assert(s.drop_last() =~= s.take(s.len() - 1));
        lemma_last_dot_is(s.drop_last(), if k == s.len() { k - 1 } else { k });
    }
}

/// Derives the stem of an archive file name.
pub fn archive_stem(name: &str) -> (r: String)
    ensures
        r@ == spec_archive_stem(name@),
{
    let n = name.unicode_len();
    if ends_with_ic(name, ".tar.gz") {
        proof {
            reveal_strlit(".tar.gz");
        }
        return name.substring_char(0, n - 7).to_owned();
    }
    if ends_with_ic(name, ".tgz") {
        proof {
            reveal_strlit(".tgz");
        }
        return name.substring_char(0, n - 4).to_owned();
    }
    let mut k: usize = n;
    while k > 0
        invariant
            0 <= k <= n,
            n == name@.len(),
            !spec_ends_with_ic(name@, ".tar.gz"@),
            !spec_ends_with_ic(name@, ".tgz"@),
            forall|j: int| k <= j < n ==> name@[j] != '.',
        decreases k,
    {
        if name.get_char(k - 1) == '.' {
            proof {
                lemma_last_dot_is(name@, k as int);
            }
            return name.substring_char(0, k - 1).to_owned();
        }
        k -= 1;
    }
    proof {
        lemma_last_dot_is(name@, 0);
        assert(name@.take(n as int) =~= name@);
    }
    name.substring_char(0, n).to_owned()
}

} // verus!
