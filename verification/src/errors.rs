//! The error taxonomy. Syntax errors, ambiguity errors and structural
//! copy errors each keep their own variant, since callers and scripts
//! tell them apart.

use vstd::prelude::*;
use vstd::string::*;
use crate::digits::{all_digits, is_digit_char};
use crate::messages::FileMeta;
use crate::paths::RemotePattern;

verus! {

/// The body of an error response from the server.
#[derive(Debug, PartialEq, Eq)]
pub struct JsonStatus {
    pub status: u16,
    pub title: String,
    pub message: String,
}

/// Whether an HTTP status code reports success.
pub fn status_is_success(status: u16) -> (r: bool)
    ensures
        r == (200 <= status < 300),
{
    200 <= status && status < 300
}

/// The names of the remote files an ambiguous pattern matched.
#[derive(Debug, PartialEq, Eq)]
pub struct RemoteFiles(pub Vec<String>);

/// Why a string was rejected as an API key.
#[derive(Debug, PartialEq, Eq)]
pub struct ApiKeyExplanation {
    reasons: Vec<String>,
    bad_key: Option<String>,
}

impl ApiKeyExplanation {
    pub closed spec fn spec_reasons(&self) -> Seq<String> {
        self.reasons@
    }

    pub closed spec fn spec_bad_key(&self) -> Option<String> {
        self.bad_key
    }

    pub fn new() -> (r: Self)
        ensures
            r.spec_reasons() == Seq::<String>::empty(),
            r.spec_bad_key() is None,
    {
        ApiKeyExplanation { reasons: Vec::new(), bad_key: None }
    }

    pub fn with_key(bad_key: &str) -> (r: Self)
        ensures
            r.spec_reasons() == Seq::<String>::empty(),
            r.spec_bad_key() matches Some(k) && k@ == bad_key@,
    {
        ApiKeyExplanation { reasons: Vec::new(), bad_key: Some(String::from_str(bad_key)) }
    }

    fn into_err<T>(self) -> (r: Result<T, Error>)
        ensures
            r matches Err(e) && e.kind matches ErrorKind::NotAnApiKey(expl) && expl == self,
    {
        Err(Error { kind: ErrorKind::NotAnApiKey(self) })
    }

    /// The reasons collected so far.
    pub fn reasons(&self) -> (r: &Vec<String>)
        ensures
            r@ == self.spec_reasons(),
    {
        &self.reasons
    }

    /// The rejected key, where the configuration was verbose enough to
    /// keep it.
    pub fn bad_key(&self) -> (r: &Option<String>)
        ensures
            *r == self.spec_bad_key(),
    {
        &self.bad_key
    }

    /// Record one more reason.
    pub fn add(&mut self, reason: String)
        ensures
            final(self).spec_reasons() == old(self).spec_reasons().push(reason),
            final(self).spec_bad_key() == old(self).spec_bad_key(),
    {
        self.reasons.push(reason);
    }

    /// Record a last reason and fail with the collected explanation.
    pub fn final_straw<T>(self, reason: String) -> (r: Result<T, Error>)
        ensures
            r matches Err(e) && e.kind matches ErrorKind::NotAnApiKey(expl)
                && expl.spec_reasons() == self.spec_reasons().push(reason) && expl.spec_bad_key()
                == self.spec_bad_key(),
    {
        let mut this = self;
        this.add(reason);
        this.into_err()
    }

    /// Succeed when no reason was collected; fail with the explanation
    /// otherwise.
    pub fn into_result(self) -> (r: Result<(), Error>)
        ensures
            self.spec_reasons().len() == 0 ==> r is Ok,
            self.spec_reasons().len() > 0 ==> (r matches Err(e) && e.kind
                matches ErrorKind::NotAnApiKey(expl) && expl == self),
    {
        if self.reasons.len() == 0 {
            Ok(())
        } else {
            self.into_err()
        }
    }
}

#[derive(Debug, PartialEq, Eq)]
pub enum ErrorKind {
    ServerError(JsonStatus),
    NotAnApiKey(ApiKeyExplanation),
    UnknownHomework(usize),
    SyntaxError(String, String),
    NoCommandGiven,
    LoginPlease,
    NoCookieFileGiven,
    NoSuchRemoteFile(RemotePattern),
    CannotCopyLocalToLocal(String, String),
    CannotCopyLocalToLocalExtra(String, String, String),
    CannotCopyRemoteToRemote(RemotePattern, RemotePattern),
    BadLocalPath(String),
    FilenameNotUtf8(String),
    MultipleSourcesOneDestination,
    DestinationPatternIsMultiple(RemotePattern, RemoteFiles),
    SourceHwToDestinationFile(usize, String),
    CommandRequiresFlag(String),
    NoInformationalEvalItem,
    EvalItemDoesNotExist(usize, usize),
    DestinationFileExists(String),
    PatternError(String),
}

#[derive(Debug, PartialEq, Eq)]
pub struct Error {
    pub kind: ErrorKind,
}

/// Whether a string looks like a bare homework token (`hw` followed by
/// digits), the common slip when a colon was meant.
pub open spec fn looks_like_hw_token(s: Seq<char>) -> bool {
    &&& s.len() >= 3
    &&& s[0] == 'h'
    &&& s[1] == 'w'
    &&& all_digits(s.skip(2))
}

/// The error a local-to-local copy is rejected with: the colon hint is
/// added when the destination looks like a bare homework token.
pub open spec fn local_to_local_error(src: Seq<char>, dst: Seq<char>, kind: ErrorKind) -> bool {
    if looks_like_hw_token(dst) {
        kind matches ErrorKind::CannotCopyLocalToLocalExtra(s, d, x) && s@ == src && d@ == dst && x@
            == "Did you leave out the colon ("@ + dst + ":)?"@
    } else {
        kind matches ErrorKind::CannotCopyLocalToLocal(s, d) && s@ == src && d@ == dst
    }
}

/// Decide whether a string is a bare homework token.
pub fn is_hw_token(s: &str) -> (r: bool)
    ensures
        r == looks_like_hw_token(s@),
{
    let n = s.unicode_len();
    if n < 3 {
        return false;
    }
    if s.get_char(0) != 'h' || s.get_char(1) != 'w' {
        return false;
    }
    let mut i: usize = 2;
    while i < n
        invariant
            2 <= i <= n,
            n == s@.len(),
            forall|j: int| 2 <= j < i ==> is_digit_char(#[trigger] s@[j]),
        decreases n - i,
    {
        let c = s.get_char(i);
        if c < '0' || c > '9' {
            assert(!is_digit_char(s@[i as int]));
            assert(s@.skip(2)[i - 2] == s@[i as int]);
            return false;
        }
        i = i + 1;
    }
    proof {
        assert forall|j: int| 0 <= j < s@.skip(2).len() implies is_digit_char(
            #[trigger] s@.skip(2)[j],
        ) by {
            assert(s@.skip(2)[j] == s@[j + 2]);
        }
    }
    true
}

impl ErrorKind {
    /// A syntax error: what was expected, and the text that was seen.
    pub fn syntax(class: &str, thing: &str) -> (r: Self)
        ensures
            r matches ErrorKind::SyntaxError(c, t) && c@ == class@ && t@ == thing@,
    {
        ErrorKind::SyntaxError(String::from_str(class), String::from_str(thing))
    }

    /// An upload destination pattern that several remote files match.
    pub fn dest_pat_is_multiple(rpat: &RemotePattern, rfile_metas: &Vec<FileMeta>) -> (r: Self)
        ensures
            r matches ErrorKind::DestinationPatternIsMultiple(p, fs) && p == *rpat && fs.0@.len()
                == rfile_metas@.len() && (forall|i: int|
                0 <= i < rfile_metas@.len() ==> #[trigger] fs.0@[i]@ == rfile_metas@[i].name@),
    {
        let mut names: Vec<String> = Vec::new();
        let mut i: usize = 0;
        while i < rfile_metas.len()
            invariant
                0 <= i <= rfile_metas@.len(),
                names@.len() == i,
                forall|j: int| 0 <= j < i ==> #[trigger] names@[j]@ == rfile_metas@[j].name@,
            decreases rfile_metas@.len() - i,
        {
            names.push(rfile_metas[i].name.clone());
            i = i + 1;
        }
        ErrorKind::DestinationPatternIsMultiple(rpat.clone(), RemoteFiles(names))
    }

    /// A copy with both ends local. When the destination looks like a
    /// bare homework token, say which colon was probably left out.
    pub fn cannot_copy_local_to_local(src: &str, dst: &str) -> (r: Self)
        ensures
            local_to_local_error(src@, dst@, r),
    {
        if is_hw_token(dst) {
            let mut message = String::new();
            message.append("Did you leave out the colon (");
            message.append(dst);
            message.append(":)?");
            ErrorKind::CannotCopyLocalToLocalExtra(
                String::from_str(src),
                String::from_str(dst),
                message,
            )
        } else {
            ErrorKind::CannotCopyLocalToLocal(String::from_str(src), String::from_str(dst))
        }
    }
}

/// The process exit code a finished command reports: a fatal error is
/// one, success with at least one warning is two, clean success is zero.
pub fn exit_code(fatal: bool, had_warning: bool) -> (r: i32)
    ensures
        r == if fatal {
            1int
        } else if had_warning {
            2int
        } else {
            0int
        },
{
    if fatal {
        1
    } else if had_warning {
        2
    } else {
        0
    }
}

impl Error {
    /// Wrap a kind.
    pub fn from_kind(kind: ErrorKind) -> (r: Self)
        ensures
            r.kind == kind,
    {
        Error { kind }
    }

    pub fn kind(&self) -> (r: &ErrorKind)
        ensures
            r == &self.kind,
    {
        &self.kind
    }

    /// A syntax error: what was expected, and the text that was seen.
    pub fn syntax(class: &str, thing: &str) -> (r: Self)
        ensures
            r.kind matches ErrorKind::SyntaxError(c, t) && c@ == class@ && t@ == thing@,
    {
        Error { kind: ErrorKind::syntax(class, thing) }
    }

    /// An upload destination pattern that several remote files match.
    pub fn dest_pat_is_multiple(rpat: &RemotePattern, rfile_metas: &Vec<FileMeta>) -> (r: Self)
        ensures
            r.kind matches ErrorKind::DestinationPatternIsMultiple(p, fs) && p == *rpat
                && fs.0@.len() == rfile_metas@.len() && (forall|i: int|
                0 <= i < rfile_metas@.len() ==> #[trigger] fs.0@[i]@ == rfile_metas@[i].name@),
    {
        Error { kind: ErrorKind::dest_pat_is_multiple(rpat, rfile_metas) }
    }
}

} // verus!
