//! The copy resolution engine. Given the parsed sources and destination
//! of a `cp`-style command, it decides the operation graph: which side
//! the transfer runs to, whether it is one file onto one path or a
//! fan-out into a directory, which remote files are involved, what gets
//! created, and which writes must first pass the overwrite policy.
//! Everything here is a decision on plain values; the transfers
//! themselves happen outside.

use vstd::prelude::*;
use vstd::string::*;
use crate::errors::{local_to_local_error, Error, ErrorKind};
use crate::messages::{purpose_dir, FileMeta, FileMetaChange, FilePurpose};
use crate::paths::{CpArg, RemoteDestination, RemotePattern};

verus! {

/// What a filesystem probe found at a local destination.
#[derive(Debug, Copy, Clone, Eq, PartialEq, Structural)]
pub enum DstType {
    Dir,
    File,
    DoesNotExist,
}

/// Which way a copy moves, with the sources all on the other side.
#[derive(Debug, PartialEq, Eq)]
pub enum CopyDirection {
    Upload { srcs: Vec<String>, dst: RemotePattern },
    Download { srcs: Vec<RemotePattern>, dst: String },
}

/// The first stage of copy resolution: dispatch on the destination's
/// tag. Uploading tolerates no remote source and downloading no local
/// source; either mixture is rejected from the arguments alone, before
/// the destination is probed and before any transfer is attempted.
pub fn resolve_copy(srcs: &Vec<CpArg>, dst: &CpArg) -> (r: Result<CopyDirection, Error>)
    ensures
        dst matches CpArg::Local(path) ==> {
            if exists|i: int| 0 <= i < srcs@.len() && (#[trigger] srcs@[i]) is Local {
                r matches Err(e) && exists|i: int|
                    {
                        &&& 0 <= i < srcs@.len()
                        &&& (#[trigger] srcs@[i]) matches CpArg::Local(p)
                        &&& (forall|j: int| 0 <= j < i ==> (#[trigger] srcs@[j]) is Remote)
                        &&& local_to_local_error(p@, path@, e.kind)
                    }
            } else {
                r matches Ok(CopyDirection::Download { srcs: rs, dst: d }) && d@ == path@
                    && rs@.len() == srcs@.len() && (forall|i: int|
                    0 <= i < srcs@.len() ==> srcs@[i] == CpArg::Remote(#[trigger] rs@[i]))
            }
        },
        dst matches CpArg::Remote(rpat) ==> {
            if exists|i: int| 0 <= i < srcs@.len() && (#[trigger] srcs@[i]) is Remote {
                r matches Err(e) && exists|i: int|
                    {
                        &&& 0 <= i < srcs@.len()
                        &&& (#[trigger] srcs@[i]) matches CpArg::Remote(p)
                        &&& (forall|j: int| 0 <= j < i ==> (#[trigger] srcs@[j]) is Local)
                        &&& e.kind matches ErrorKind::CannotCopyRemoteToRemote(s, t) && s == p && t
                            == rpat
                    }
            } else {
                r matches Ok(CopyDirection::Upload { srcs: ls, dst: d }) && d == rpat && ls@.len()
                    == srcs@.len() && (forall|i: int|
                    0 <= i < srcs@.len() ==> srcs@[i] == CpArg::Local(#[trigger] ls@[i]))
            }
        },
{
    match dst {
        CpArg::Local(path) => {
            let mut rpats: Vec<RemotePattern> = Vec::new();
            let mut i: usize = 0;
            while i < srcs.len()
                invariant
                    *dst == CpArg::Local(*path),
                    0 <= i <= srcs@.len(),
                    rpats@.len() == i,
                    forall|j: int| 0 <= j < i ==> (#[trigger] srcs@[j]) is Remote,
                    forall|j: int| 0 <= j < i ==> srcs@[j] == CpArg::Remote(#[trigger] rpats@[j]),
                decreases srcs@.len() - i,
            {
                match &srcs[i] {
                    CpArg::Local(p) => {
                        return Err(
                            Error::from_kind(
                                ErrorKind::cannot_copy_local_to_local(p.as_str(), path.as_str()),
                            ),
                        );
                    },
                    CpArg::Remote(rp) => {
                        rpats.push(rp.clone());
                    },
                }
                i = i + 1;
            }
            Ok(CopyDirection::Download { srcs: rpats, dst: path.clone() })
        },
        CpArg::Remote(rpat) => {
            let mut locals: Vec<String> = Vec::new();
            let mut i: usize = 0;
            while i < srcs.len()
                invariant
                    *dst == CpArg::Remote(*rpat),
                    0 <= i <= srcs@.len(),
                    locals@.len() == i,
                    forall|j: int| 0 <= j < i ==> (#[trigger] srcs@[j]) is Local,
                    forall|j: int| 0 <= j < i ==> srcs@[j] == CpArg::Local(#[trigger] locals@[j]),
                decreases srcs@.len() - i,
            {
                match &srcs[i] {
                    CpArg::Remote(rp) => {
                        return Err(
                            Error::from_kind(
                                ErrorKind::CannotCopyRemoteToRemote(rp.clone(), rpat.clone()),
                            ),
                        );
                    },
                    CpArg::Local(p) => {
                        locals.push(p.clone());
                    },
                }
                i = i + 1;
            }
            Ok(CopyDirection::Upload { srcs: locals, dst: rpat.clone() })
        },
    }
}

/// The plan for a download destination.
#[derive(Debug, PartialEq, Eq)]
pub enum DownloadPlan {
    /// Exactly one remote file onto exactly this local path.
    SingleFile { rpat: RemotePattern, dst: String, check_overwrite: bool },
    /// Fan the sources out under a directory, creating it first when it
    /// does not exist yet.
    IntoDirectory { rpats: Vec<RemotePattern>, dst: String, create_first: bool },
}

/// A destination that does not exist yet gets directory semantics when
/// the path ends in a separator, or when a source names a whole
/// homework; either signal alone suffices.
pub open spec fn dir_semantics(srcs: Seq<RemotePattern>, dst: Seq<char>) -> bool {
    ||| (dst.len() > 0 && dst.last() == '/')
    ||| exists|i: int| 0 <= i < srcs.len() && (#[trigger] srcs[i]).name@.len() == 0
}

/// Whether any source names a whole homework.
fn any_whole_hw(rpats: &Vec<RemotePattern>) -> (r: bool)
    ensures
        r == exists|i: int| 0 <= i < rpats@.len() && (#[trigger] rpats@[i]).name@.len() == 0,
{
    let mut i: usize = 0;
    while i < rpats.len()
        invariant
            0 <= i <= rpats@.len(),
            forall|j: int| 0 <= j < i ==> (#[trigger] rpats@[j]).name@.len() > 0,
        decreases rpats@.len() - i,
    {
        if rpats[i].is_whole_hw() {
            return true;
        }
        i = i + 1;
    }
    false
}

/// The second stage for a download: classify the destination.
///
/// An existing plain file takes exactly one source, which must not be a
/// whole homework. An existing directory takes everything as a fan-out.
/// A path that does not exist yet becomes a directory when either
/// directory signal is present, and otherwise takes exactly one source
/// as a fresh file, with no overwrite check since nothing is there.
pub fn plan_download(src_rpats: Vec<RemotePattern>, dst: String, dst_type: DstType) -> (r: Result<
    DownloadPlan,
    Error,
>)
    ensures
        dst_type == DstType::File ==> {
            if src_rpats@.len() != 1 {
                r matches Err(e) && e.kind == ErrorKind::MultipleSourcesOneDestination
            } else if src_rpats@[0].name@.len() == 0 {
                r matches Err(e) && (e.kind matches ErrorKind::SourceHwToDestinationFile(hw, d)
                    && hw == src_rpats@[0].hw && d@ == dst@)
            } else {
                r == Ok::<DownloadPlan, Error>(
                    DownloadPlan::SingleFile { rpat: src_rpats@[0], dst, check_overwrite: true },
                )
            }
        },
        dst_type == DstType::Dir ==> r == Ok::<DownloadPlan, Error>(
            DownloadPlan::IntoDirectory { rpats: src_rpats, dst, create_first: false },
        ),
        dst_type == DstType::DoesNotExist ==> {
            if dir_semantics(src_rpats@, dst@) {
                r == Ok::<DownloadPlan, Error>(
                    DownloadPlan::IntoDirectory { rpats: src_rpats, dst, create_first: true },
                )
            } else if src_rpats@.len() != 1 {
                r matches Err(e) && e.kind == ErrorKind::MultipleSourcesOneDestination
            } else {
                r == Ok::<DownloadPlan, Error>(
                    DownloadPlan::SingleFile { rpat: src_rpats@[0], dst, check_overwrite: false },
                )
            }
        },
{
    match dst_type {
        DstType::File => {
            if src_rpats.len() != 1 {
                return Err(Error::from_kind(ErrorKind::MultipleSourcesOneDestination));
            }
            let rpat = src_rpats[0].clone();
            if rpat.is_whole_hw() {
                Err(Error::from_kind(ErrorKind::SourceHwToDestinationFile(rpat.hw, dst)))
            } else {
                proof {
                    assert(src_rpats@[0] == rpat);
                }
                Ok(DownloadPlan::SingleFile { rpat, dst, check_overwrite: true })
            }
        },
        DstType::Dir => Ok(DownloadPlan::IntoDirectory { rpats: src_rpats, dst, create_first: false }),
        DstType::DoesNotExist => {
            if crate::text::ends_with_char(dst.as_str(), '/') || any_whole_hw(&src_rpats) {
                Ok(DownloadPlan::IntoDirectory { rpats: src_rpats, dst, create_first: true })
            } else if src_rpats.len() != 1 {
                Err(Error::from_kind(ErrorKind::MultipleSourcesOneDestination))
            } else {
                let rpat = src_rpats[0].clone();
                proof {
                    assert(src_rpats@[0] == rpat);
                }
                Ok(DownloadPlan::SingleFile { rpat, dst, check_overwrite: false })
            }
        },
    }
}

/// One file write of a download: where the bytes come from, where they
/// land, what directory must exist first, and whether the write must
/// pass the overwrite policy.
#[derive(Debug, PartialEq, Eq)]
pub struct FileAction {
    pub uri: String,
    pub name: String,
    pub hw: usize,
    pub upload_time: String,
    pub local_path: String,
    pub mkdir: Option<String>,
    pub check_overwrite: bool,
}

/// The subdirectory one fanned-out file lands under.
pub open spec fn fan_out_dir(dst: Seq<char>, f: FileMeta) -> Seq<char> {
    dst + seq!['/'] + purpose_dir(f.purpose)
}

/// The path one fanned-out file lands at.
pub open spec fn fan_out_path(dst: Seq<char>, f: FileMeta) -> Seq<char> {
    fan_out_dir(dst, f) + seq!['/'] + f.name@
}

/// Correspondence between one whole-homework action and its file.
pub open spec fn hw_action_for(a: FileAction, f: FileMeta, hw: usize, dst: Seq<char>) -> bool {
    &&& a.uri@ == f.uri@
    &&& a.name@ == f.name@
    &&& a.upload_time@ == f.upload_time@
    &&& a.hw == hw
    &&& a.local_path@ == fan_out_path(dst, f)
    &&& a.mkdir matches Some(m) && m@ == fan_out_dir(dst, f)
    &&& a.check_overwrite
}

/// The files a whole-homework download transfers: the server's own log
/// files stay behind.
pub open spec fn kept_files(files: Seq<FileMeta>) -> Seq<FileMeta> {
    files.filter(|f: FileMeta| f.purpose != FilePurpose::Log)
}

/// The actions of a whole-homework download into a directory: one file
/// per purpose-named subdirectory, each write policy-checked, and files
/// of the log purpose skipped.
pub fn download_hw_actions(files: &Vec<FileMeta>, hw: usize, dst: &str) -> (r: Vec<FileAction>)
    ensures
        r@.len() == kept_files(files@).len(),
        forall|i: int|
            0 <= i < r@.len() ==> hw_action_for(#[trigger] r@[i], kept_files(files@)[i], hw, dst@),
{
    let mut result: Vec<FileAction> = Vec::new();
    let mut i: usize = 0;
    proof {
        reveal(Seq::filter);
        assert(files@.take(0) =~= Seq::<FileMeta>::empty());
    }
    while i < files.len()
        invariant
            0 <= i <= files@.len(),
            result@.len() == kept_files(files@.take(i as int)).len(),
            forall|j: int|
                0 <= j < result@.len() ==> hw_action_for(
                    #[trigger] result@[j],
                    kept_files(files@.take(i as int))[j],
                    hw,
                    dst@,
                ),
        decreases files@.len() - i,
    {
        let ghost prefix = files@.take(i as int);
        let ghost extended = files@.take(i + 1);
        proof {
            reveal(Seq::filter);
            assert(extended.drop_last() =~= prefix);
            assert(extended.last() == files@[i as int]);
        }
        let purpose = files[i].purpose;
        if !purpose.is_automatically_deletable() {
            let mut dir = String::from_str(dst);
            dir.append("/");
            dir.append(purpose.to_dir());
            let mut path = dir.clone();
            path.append("/");
            path.append(files[i].name.as_str());
            proof {
                reveal_strlit("/");
                assert(dir@ =~= fan_out_dir(dst@, files@[i as int]));
                assert(path@ =~= fan_out_path(dst@, files@[i as int]));
            }
            let action = FileAction {
                uri: files[i].uri.clone(),
                name: files[i].name.clone(),
                hw,
                upload_time: files[i].upload_time.clone(),
                local_path: path,
                mkdir: Some(dir),
                check_overwrite: true,
            };
            result.push(action);
            proof {
                reveal(Seq::filter);
                assert(kept_files(extended) == kept_files(prefix).push(files@[i as int]));
            }
        } else {
            proof {
                reveal(Seq::filter);
                assert(kept_files(extended) == kept_files(prefix));
            }
        }
        i = i + 1;
    }
    proof {
        assert(files@.take(files@.len() as int) =~= files@);
    }
    result
}

/// Correspondence between one direct action and its file.
pub open spec fn dir_action_for(a: FileAction, f: FileMeta, hw: usize, dst: Seq<char>) -> bool {
    &&& a.uri@ == f.uri@
    &&& a.name@ == f.name@
    &&& a.upload_time@ == f.upload_time@
    &&& a.hw == hw
    &&& a.local_path@ == dst + seq!['/'] + f.name@
    &&& a.mkdir is None
    &&& a.check_overwrite
}

/// The actions of a pattern download into an existing directory: each
/// matched file directly under the destination, each write
/// policy-checked, and no subdirectory fan-out.
pub fn dir_download_actions(files: &Vec<FileMeta>, hw: usize, dst: &str) -> (r: Vec<FileAction>)
    ensures
        r@.len() == files@.len(),
        forall|i: int|
            0 <= i < r@.len() ==> dir_action_for(#[trigger] r@[i], files@[i], hw, dst@),
{
    let mut result: Vec<FileAction> = Vec::new();
    let mut i: usize = 0;
    while i < files.len()
        invariant
            0 <= i <= files@.len(),
            result@.len() == i,
            forall|j: int|
                0 <= j < i ==> dir_action_for(#[trigger] result@[j], files@[j], hw, dst@),
        decreases files@.len() - i,
    {
        let mut path = String::from_str(dst);
        path.append("/");
        path.append(files[i].name.as_str());
        proof {
            reveal_strlit("/");
            assert(path@ =~= dst@ + seq!['/'] + files@[i as int].name@);
        }
        let action = FileAction {
            uri: files[i].uri.clone(),
            name: files[i].name.clone(),
            hw,
            upload_time: files[i].upload_time.clone(),
            local_path: path,
            mkdir: None,
            check_overwrite: true,
        };
        result.push(action);
        i = i + 1;
    }
    result
}

/// The one action of a single-file download: the resolved remote file
/// onto exactly the destination path.
pub fn single_file_action(hw: usize, meta: &FileMeta, dst: &str, check_overwrite: bool) -> (a:
    FileAction)
    ensures
        a.uri@ == meta.uri@,
        a.name@ == meta.name@,
        a.upload_time@ == meta.upload_time@,
        a.hw == hw,
        a.local_path@ == dst@,
        a.mkdir is None,
        a.check_overwrite == check_overwrite,
{
    FileAction {
        uri: meta.uri.clone(),
        name: meta.name.clone(),
        hw,
        upload_time: meta.upload_time.clone(),
        local_path: String::from_str(dst),
        mkdir: None,
        check_overwrite,
    }
}

/// The plan for an upload destination.
#[derive(Debug, Copy, Clone, Eq, PartialEq, Structural)]
pub enum UploadPlan {
    /// Each local source under its own base file name.
    WholeHw,
    /// Exactly one local source onto one named remote slot.
    SingleNamed,
}

/// The second stage for an upload: a whole-homework destination takes
/// every source under its own name; a named destination takes exactly
/// one source.
pub fn plan_upload(srcs: &Vec<String>, dst: &RemotePattern) -> (r: Result<UploadPlan, Error>)
    ensures
        dst.name@.len() == 0 ==> r == Ok::<UploadPlan, Error>(UploadPlan::WholeHw),
        dst.name@.len() > 0 && srcs@.len() == 1 ==> r == Ok::<UploadPlan, Error>(
            UploadPlan::SingleNamed,
        ),
        dst.name@.len() > 0 && srcs@.len() != 1 ==> (r matches Err(e) && e.kind
            == ErrorKind::MultipleSourcesOneDestination),
{
    if dst.is_whole_hw() {
        Ok(UploadPlan::WholeHw)
    } else if srcs.len() == 1 {
        Ok(UploadPlan::SingleNamed)
    } else {
        Err(Error::from_kind(ErrorKind::MultipleSourcesOneDestination))
    }
}

/// The remote name a named upload writes to, given the files that
/// already match the destination pattern on the server: a fresh name
/// when nothing matches, the one existing name when one file does, and
/// a refusal to guess when several do.
pub fn upload_target(dst: &RemotePattern, matching: &Vec<FileMeta>) -> (r: Result<String, Error>)
    ensures
        matching@.len() == 0 ==> (r matches Ok(name) && name@ == dst.name@),
        matching@.len() == 1 ==> (r matches Ok(name) && name@ == matching@[0].name@),
        matching@.len() > 1 ==> (r matches Err(e) && (e.kind
            matches ErrorKind::DestinationPatternIsMultiple(p, fs) && p == *dst && fs.0@.len()
            == matching@.len() && (forall|i: int|
            0 <= i < matching@.len() ==> #[trigger] fs.0@[i]@ == matching@[i].name@))),
{
    if matching.len() == 0 {
        Ok(dst.name.clone())
    } else if matching.len() == 1 {
        Ok(matching[0].name.clone())
    } else {
        Err(Error::dest_pat_is_multiple(dst, matching))
    }
}

/// Where the base name of a local path starts: right after its last
/// separator.
pub open spec fn base_start(s: Seq<char>) -> int
    decreases s.len(),
{
    if s.len() == 0 {
        0
    } else if s.last() == '/' {
        s.len() as int
    } else {
        base_start(s.drop_last())
    }
}

proof fn lemma_base_start(s: Seq<char>)
    ensures
        0 <= base_start(s) <= s.len(),
        forall|j: int| base_start(s) <= j < s.len() ==> s[j] != '/',
        base_start(s) > 0 ==> s[base_start(s) - 1] == '/',
    decreases s.len(),
{
    if s.len() == 0 {
    } else if s.last() == '/' {
    } else {
        lemma_base_start(s.drop_last());
        assert forall|j: int| base_start(s) <= j < s.len() implies s[j] != '/' by {
            if j < s.len() - 1 {
                assert(s.drop_last()[j] == s[j]);
            }
        }
        if base_start(s) > 0 {
            assert(s.drop_last()[base_start(s) - 1] == s[base_start(s) - 1]);
        }
    }
}

proof fn lemma_base_start_unique(s: Seq<char>, k: int)
    requires
        0 <= k <= s.len(),
        forall|j: int| k <= j < s.len() ==> s[j] != '/',
        k > 0 ==> s[k - 1] == '/',
    ensures
        base_start(s) == k,
{
    lemma_base_start(s);
    let b = base_start(s);
    if b < k {
        assert(s[k - 1] != '/');
        assert(s[k - 1] == '/');
    }
    if k < b {
        assert(s[b - 1] != '/');
        assert(s[b - 1] == '/');
    }
}

/// Whether a string ends in a lone `.` path component.
pub open spec fn ends_in_dot_component(s: Seq<char>) -> bool {
    s.len() > 0 && s.last() == '.' && (s.len() == 1 || s[s.len() - 2] == '/')
}

/// Where a path's meaningful text ends: trailing separators and trailing
/// lone `.` components say nothing about the final component and are
/// ignored, as the standard path reading has it.
pub open spec fn stripped_end(s: Seq<char>) -> int
    decreases s.len(),
{
    if s.len() == 0 {
        0
    } else if s.last() == '/' || ends_in_dot_component(s) {
        stripped_end(s.drop_last())
    } else {
        s.len() as int
    }
}

/// Where the ignorable tail of a path starts.
fn strip_end_index(path: &str) -> (k: usize)
    ensures
        k == stripped_end(path@),
        k <= path@.len(),
{
    let n = path.unicode_len();
    let mut i: usize = n;
    proof {
        assert(path@.take(n as int) =~= path@);
    }
    while i > 0
        invariant
            0 <= i <= n,
            n == path@.len(),
            stripped_end(path@) == stripped_end(path@.take(i as int)),
        decreases i,
    {
        let ghost prefix = path@.take(i as int);
        let c = path.get_char(i - 1);
        proof {
            assert(prefix.last() == path@[i - 1]);
            assert(prefix.drop_last() =~= path@.take(i - 1));
            if i >= 2 {
                assert(prefix[i - 2] == path@[i - 2]);
            }
        }
        if c == '/' {
            i = i - 1;
        } else if c == '.' && (i == 1 || path.get_char(i - 2) == '/') {
            i = i - 1;
        } else {
            proof {
                assert(!ends_in_dot_component(prefix));
                assert(stripped_end(prefix) == i as int);
            }
            return i;
        }
    }
    proof {
        assert(path@.take(0) =~= Seq::<char>::empty());
    }
    0
}

/// The base name of a local path, read as the standard path reading
/// does: trailing separators and trailing `.` components are ignored,
/// and what follows the last remaining separator is the name — unless
/// nothing remains or it is `..`, which name no file.
pub open spec fn base_name_of(path: Seq<char>) -> Option<Seq<char>> {
    let stem = path.take(stripped_end(path));
    let base = stem.skip(base_start(stem));
    if base.len() == 0 || base == ".."@ {
        None
    } else {
        Some(base)
    }
}

/// The base file name a local source is uploaded under; a path with
/// none is a bad local path.
pub fn base_filename(path: &str) -> (r: Result<String, Error>)
    ensures
        base_name_of(path@) matches Some(b) ==> (r matches Ok(s) && s@ == b),
        base_name_of(path@) is None ==> (r matches Err(e) && (e.kind
            matches ErrorKind::BadLocalPath(p) && p@ == path@)),
{
    let end = strip_end_index(path);
    let ghost stem = path@.take(end as int);
    let mut start: usize = 0;
    let mut i: usize = 0;
    while i < end
        invariant
            0 <= start <= i <= end,
            end <= path@.len(),
            forall|j: int| start <= j < i ==> path@[j] != '/',
            start > 0 ==> path@[start - 1] == '/',
        decreases end - i,
    {
        if path.get_char(i) == '/' {
            start = i + 1;
        }
        i = i + 1;
    }
    proof {
        assert forall|j: int| start <= j < stem.len() implies stem[j] != '/' by {
            assert(stem[j] == path@[j]);
        }
        if start > 0 {
            assert(stem[start - 1] == path@[start - 1]);
        }
        lemma_base_start_unique(stem, start as int);
    }
    let base = path.substring_char(start, end);
    proof {
        assert(base@ =~= stem.skip(start as int));
        reveal_strlit("..");
    }
    let blen = base.unicode_len();
    if blen == 0 {
        return Err(Error::from_kind(ErrorKind::BadLocalPath(String::from_str(path))));
    }
    if blen == 2 && base.get_char(0) == '.' && base.get_char(1) == '.' {
        proof {
            assert(base@ =~= ".."@);
        }
        return Err(Error::from_kind(ErrorKind::BadLocalPath(String::from_str(path))));
    }
    proof {
        assert(base@ != ".."@);
    }
    Ok(String::from_str(base))
}

/// The plan for a move: either the destination says nothing new, or the
/// resolved target and the change message to send.
#[derive(Debug, PartialEq, Eq)]
pub enum MvPlan {
    Identical,
    Move { dst: RemotePattern, message: FileMetaChange },
}

/// Decide what a move changes. The destination's homework number counts
/// only where it differs from the source's, and its name only where it
/// is nonempty and differs; with neither there is nothing to do. The
/// message leaves the overwrite flag down: it rises only after the
/// overwrite policy has allowed the write.
pub fn plan_mv(src: &FileMeta, part_dst: &RemoteDestination) -> (r: MvPlan)
    ensures
        ({
            let hw_changed = part_dst.hw is Some && part_dst.hw->0 != src.hw;
            let name_changed = part_dst.name@.len() > 0 && part_dst.name@ != src.name@;
            if !hw_changed && !name_changed {
                r == MvPlan::Identical
            } else {
                r matches MvPlan::Move { dst, message } && {
                    &&& dst.hw == if hw_changed {
                        part_dst.hw->0
                    } else {
                        src.hw
                    }
                    &&& dst.name@ == if name_changed {
                        part_dst.name@
                    } else {
                        src.name@
                    }
                    &&& message.hw == if hw_changed {
                        part_dst.hw
                    } else {
                        None::<usize>
                    }
                    &&& if name_changed {
                        message.name matches Some(nm) && nm@ == part_dst.name@
                    } else {
                        message.name is None
                    }
                    &&& message.media_type is None
                    &&& message.purpose is None
                    &&& !message.overwrite
                }
            }
        }),
{
    let mut hw: usize = src.hw;
    let mut name: String = src.name.clone();
    let mut message = FileMetaChange::default();
    if let Some(h) = part_dst.hw {
        if h != src.hw {
            hw = h;
            message.hw = Some(h);
        }
    }
    let name_nonempty = !part_dst.name.as_str().is_empty();
    if name_nonempty && !crate::text::str_eq(part_dst.name.as_str(), src.name.as_str()) {
        name = part_dst.name.clone();
        message.name = Some(part_dst.name.clone());
    }
    if message.hw.is_none() && message.name.is_none() {
        MvPlan::Identical
    } else {
        MvPlan::Move { dst: RemotePattern::hw_name(hw, name), message }
    }
}

} // verus!
