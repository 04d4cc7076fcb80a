//! The values the server reports and accepts: file metadata, submission
//! and user records, and the change messages the client sends back.
//! Timestamps are carried as the transport text they arrived in; the
//! core never computes with them.

use vstd::prelude::*;
use crate::paths::rpat_text;

verus! {

#[derive(Copy, Clone, Debug, PartialEq, Eq, Structural)]
pub enum EvalType {
    Boolean,
    Scale,
    Informational,
}

#[derive(Debug, PartialEq, Eq)]
pub struct EvalShort {
    pub uri: String,
    pub sequence: usize,
    pub submission_uri: String,
    pub eval_type: EvalType,
}

#[derive(Copy, Clone, Debug, PartialEq, Eq, Structural)]
pub struct ExamGrade {
    pub number: usize,
    pub points: usize,
    pub possible: usize,
}

/// What a remote file is for. The purpose drives the display code, the
/// fan-out subdirectory of a whole-homework download, and whether `cat`
/// numbers its lines.
#[derive(Copy, Clone, Debug, PartialEq, Eq, Structural)]
pub enum FilePurpose {
    Source,
    Test,
    Config,
    Resource,
    Log,
    Forbidden,
}

#[derive(Copy, Clone, Debug, PartialEq, Eq, Structural)]
pub enum GraderEvalStatus {
    Editing,
    HeldBack,
    Ready,
    Regrade,
}

/// Metadata of one remote file, as listed by the server.
#[derive(Debug, PartialEq, Eq)]
pub struct FileMeta {
    pub hw: usize,
    pub byte_count: usize,
    pub media_type: String,
    pub name: String,
    pub purpose: FilePurpose,
    pub upload_time: String,
    pub uri: String,
}

#[derive(Debug, PartialEq, Eq)]
pub enum JsonResult {
    Success(String),
    Failure(String),
    Nested(Vec<JsonResult>),
}

#[derive(Copy, Clone, Debug, PartialEq, Eq, Structural)]
pub enum PartnerRequestStatus {
    Outgoing,
    Incoming,
    Accepted,
    Canceled,
}

#[derive(Debug, PartialEq, Eq)]
pub struct PartnerRequest {
    pub assignment_number: usize,
    pub user: String,
    pub status: PartnerRequestStatus,
}

#[derive(Copy, Clone, Debug, PartialEq, Eq, Structural)]
pub enum UserRole {
    Student,
    Grader,
    Admin,
}

#[derive(Debug, PartialEq, Eq)]
pub struct UserCreate {
    pub name: String,
    pub role: UserRole,
}

#[derive(Debug, PartialEq, Eq)]
pub struct UserShort {
    pub name: String,
    pub uri: String,
}

#[derive(Copy, Clone, Debug, PartialEq, Eq, Structural)]
pub enum SubmissionStatus {
    Future,
    Open,
    Extended,
    Overtime,
    SelfEval,
    ExtendedEval,
    Closed,
}

#[derive(Copy, Clone, Debug, PartialEq, Eq, Structural)]
pub enum SubmissionEvalStatus {
    Empty,
    Started,
    Overdue,
    Complete,
}

/// A PATCH message changing one remote file's metadata.
#[derive(Debug, PartialEq, Eq)]
pub struct FileMetaChange {
    pub hw: Option<usize>,
    pub media_type: Option<String>,
    pub name: Option<String>,
    pub purpose: Option<FilePurpose>,
    pub overwrite: bool,
}

/// A PATCH message changing a user record.
#[derive(Debug, PartialEq, Eq)]
pub struct UserChange {
    pub exam_grades: Vec<ExamGrade>,
    pub partner_requests: Vec<PartnerRequest>,
    pub password: Option<String>,
    pub role: Option<UserRole>,
}

impl Clone for FileMeta {
    fn clone(&self) -> (r: Self)
        ensures
            r == *self,
    {
        FileMeta {
            hw: self.hw,
            byte_count: self.byte_count,
            media_type: self.media_type.clone(),
            name: self.name.clone(),
            purpose: self.purpose,
            upload_time: self.upload_time.clone(),
            uri: self.uri.clone(),
        }
    }
}

impl FileMeta {
    /// Render as `hw<N>:<name>`.
    pub fn to_text(&self) -> (r: String)
        ensures
            r@ == rpat_text(self.hw as nat, self.name@),
    {
        let rpat = crate::paths::RemotePattern::hw_name(self.hw, self.name.clone());
        rpat.to_text()
    }
}

impl Default for FileMetaChange {
    fn default() -> (r: Self)
        ensures
            r.hw is None,
            r.media_type is None,
            r.name is None,
            r.purpose is None,
            !r.overwrite,
    {
        FileMetaChange { hw: None, media_type: None, name: None, purpose: None, overwrite: false }
    }
}

impl Default for UserChange {
    fn default() -> (r: Self)
        ensures
            r.exam_grades@ == Seq::<ExamGrade>::empty(),
            r.partner_requests@ == Seq::<PartnerRequest>::empty(),
            r.password is None,
            r.role is None,
    {
        UserChange {
            exam_grades: Vec::new(),
            partner_requests: Vec::new(),
            password: None,
            role: None,
        }
    }
}

/// The label of a user role.
pub open spec fn role_text(role: UserRole) -> Seq<char> {
    match role {
        UserRole::Student => "student"@,
        UserRole::Grader => "grader"@,
        UserRole::Admin => "admin"@,
    }
}

impl UserRole {
    pub fn as_str(self) -> (r: &'static str)
        ensures
            r@ == role_text(self),
    {
        match self {
            UserRole::Student => "student",
            UserRole::Grader => "grader",
            UserRole::Admin => "admin",
        }
    }
}

/// The label of a submission status.
pub open spec fn submission_status_text(status: SubmissionStatus) -> Seq<char> {
    match status {
        SubmissionStatus::Future => "future"@,
        SubmissionStatus::Open => "open for submission"@,
        SubmissionStatus::Extended => "open for submission (extended)"@,
        SubmissionStatus::Overtime => "overtime submission or self-eval"@,
        SubmissionStatus::SelfEval => "open for self evaluation"@,
        SubmissionStatus::ExtendedEval => "open for self evaluation (extended)"@,
        SubmissionStatus::Closed => "closed"@,
    }
}

impl SubmissionStatus {
    pub fn to_str(&self) -> (r: &'static str)
        ensures
            r@ == submission_status_text(*self),
    {
        match *self {
            SubmissionStatus::Future => "future",
            SubmissionStatus::Open => "open for submission",
            SubmissionStatus::Extended => "open for submission (extended)",
            SubmissionStatus::Overtime => "overtime submission or self-eval",
            SubmissionStatus::SelfEval => "open for self evaluation",
            SubmissionStatus::ExtendedEval => "open for self evaluation (extended)",
            SubmissionStatus::Closed => "closed",
        }
    }

    /// Whether the submission is in one of its self-evaluation phases.
    pub fn is_self_eval(&self) -> (r: bool)
        ensures
            r == (*self == SubmissionStatus::Overtime || *self == SubmissionStatus::SelfEval
                || *self == SubmissionStatus::ExtendedEval),
    {
        match *self {
            SubmissionStatus::Overtime => true,
            SubmissionStatus::SelfEval => true,
            SubmissionStatus::ExtendedEval => true,
            _ => false,
        }
    }
}

/// The label of an evaluation status.
pub open spec fn eval_status_text(status: SubmissionEvalStatus) -> Seq<char> {
    match status {
        SubmissionEvalStatus::Empty => "empty"@,
        SubmissionEvalStatus::Started => "started"@,
        SubmissionEvalStatus::Overdue => "overdue"@,
        SubmissionEvalStatus::Complete => "complete"@,
    }
}

impl SubmissionEvalStatus {
    pub fn to_str(&self) -> (r: &'static str)
        ensures
            r@ == eval_status_text(*self),
    {
        match *self {
            SubmissionEvalStatus::Empty => "empty",
            SubmissionEvalStatus::Started => "started",
            SubmissionEvalStatus::Overdue => "overdue",
            SubmissionEvalStatus::Complete => "complete",
        }
    }
}

/// The one-character code a listing shows for a purpose.
pub open spec fn purpose_char(purpose: FilePurpose) -> char {
    match purpose {
        FilePurpose::Source => 's',
        FilePurpose::Test => 't',
        FilePurpose::Config => 'c',
        FilePurpose::Resource => 'r',
        FilePurpose::Log => 'l',
        FilePurpose::Forbidden => 'F',
    }
}

/// The subdirectory a whole-homework download files a purpose under.
pub open spec fn purpose_dir(purpose: FilePurpose) -> Seq<char> {
    match purpose {
        FilePurpose::Source => "src"@,
        FilePurpose::Test => "test"@,
        FilePurpose::Config => "."@,
        FilePurpose::Resource => "Resources"@,
        FilePurpose::Log => "."@,
        FilePurpose::Forbidden => "."@,
    }
}

impl FilePurpose {
    pub fn to_char(&self) -> (r: char)
        ensures
            r == purpose_char(*self),
    {
        match self {
            FilePurpose::Source => 's',
            FilePurpose::Test => 't',
            FilePurpose::Config => 'c',
            FilePurpose::Resource => 'r',
            FilePurpose::Log => 'l',
            FilePurpose::Forbidden => 'F',
        }
    }

    pub fn to_dir(&self) -> (r: &'static str)
        ensures
            r@ == purpose_dir(*self),
    {
        match self {
            FilePurpose::Source => "src",
            FilePurpose::Test => "test",
            FilePurpose::Config => ".",
            FilePurpose::Resource => "Resources",
            FilePurpose::Log => ".",
            FilePurpose::Forbidden => ".",
        }
    }

    /// Whether the server may delete files of this purpose on its own;
    /// a whole-homework download leaves them behind.
    pub fn is_automatically_deletable(self) -> (r: bool)
        ensures
            r == (self == FilePurpose::Log),
    {
        self == FilePurpose::Log
    }

    /// Whether `cat` numbers the lines of files of this purpose.
    pub fn is_line_numbered(self) -> (r: bool)
        ensures
            r == (self != FilePurpose::Resource && self != FilePurpose::Log),
    {
        self != FilePurpose::Resource && !self.is_automatically_deletable()
    }
}

} // verus!
