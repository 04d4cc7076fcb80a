//! Client configuration, and the tri-state overwrite policy that a
//! whole copy batch shares: one `all` answer upgrades the policy for
//! every file that follows, and nothing ever downgrades it.

use vstd::prelude::*;
use vstd::string::*;
use crate::errors::Error;
use crate::errors::ErrorKind;

verus! {

/// What to do when a copy would overwrite an existing file.
#[derive(Debug, Copy, Clone, Eq, PartialEq, Structural)]
pub enum OverwritePolicy {
    Always,
    Never,
    Ask,
}

/// One answer to the interactive overwrite prompt.
#[derive(Debug, Copy, Clone, Eq, PartialEq, Structural)]
pub enum PromptAnswer {
    Yes,
    No,
    All,
    Cancel,
    ClosedStream,
    Unrecognized,
}

/// What a batch step does about an existing destination before any
/// prompt is shown.
#[derive(Debug, PartialEq, Eq)]
pub enum PolicyDecision {
    Proceed,
    Refuse(Error),
    AskUser,
}

/// What the prompt loop does with one answer.
#[derive(Debug, Copy, Clone, Eq, PartialEq, Structural)]
pub enum PromptOutcome {
    /// Overwrite this file.
    Overwrite,
    /// Skip this file; the batch continues and this is no failure.
    Skip,
    /// Show the legend and ask again.
    Reprompt,
    /// The user canceled: the whole process stops cleanly.
    Terminate,
    /// The input stream is gone: the process aborts.
    Abort,
}

/// The answer one input line stands for: its first character, case
/// folded; an empty line means the stream closed.
pub open spec fn spec_answer(line: Seq<char>) -> PromptAnswer {
    if line.len() == 0 {
        PromptAnswer::ClosedStream
    } else if line[0] == 'y' || line[0] == 'Y' {
        PromptAnswer::Yes
    } else if line[0] == 'n' || line[0] == 'N' {
        PromptAnswer::No
    } else if line[0] == 'a' || line[0] == 'A' {
        PromptAnswer::All
    } else if line[0] == 'c' || line[0] == 'C' {
        PromptAnswer::Cancel
    } else {
        PromptAnswer::Unrecognized
    }
}

/// Classify one line of prompt input.
pub fn classify_answer(line: &str) -> (r: PromptAnswer)
    ensures
        r == spec_answer(line@),
{
    if line.is_empty() {
        return PromptAnswer::ClosedStream;
    }
    let c = line.get_char(0);
    if c == 'y' || c == 'Y' {
        PromptAnswer::Yes
    } else if c == 'n' || c == 'N' {
        PromptAnswer::No
    } else if c == 'a' || c == 'A' {
        PromptAnswer::All
    } else if c == 'c' || c == 'C' {
        PromptAnswer::Cancel
    } else {
        PromptAnswer::Unrecognized
    }
}

impl OverwritePolicy {
    /// The non-interactive part of confirming an overwrite: `Always`
    /// proceeds, `Never` refuses with the destination-exists error, and
    /// `Ask` defers to the prompt.
    pub fn precheck(&self, dst: &str) -> (r: PolicyDecision)
        ensures
            *self == OverwritePolicy::Always ==> r == PolicyDecision::Proceed,
            *self == OverwritePolicy::Never ==> (r matches PolicyDecision::Refuse(e) && e.kind
                matches ErrorKind::DestinationFileExists(f) && f@ == dst@),
            *self == OverwritePolicy::Ask ==> r == PolicyDecision::AskUser,
    {
        match self {
            OverwritePolicy::Always => PolicyDecision::Proceed,
            OverwritePolicy::Never => PolicyDecision::Refuse(
                Error::from_kind(ErrorKind::DestinationFileExists(String::from_str(dst))),
            ),
            OverwritePolicy::Ask => PolicyDecision::AskUser,
        }
    }

    /// Apply one prompt answer. The only transition is `Ask` to
    /// `Always`, on the `all` answer; in particular a policy that has
    /// reached `Always` never reverts within the batch.
    pub fn apply_answer(&mut self, answer: PromptAnswer) -> (r: PromptOutcome)
        ensures
            r == match answer {
                PromptAnswer::Yes => PromptOutcome::Overwrite,
                PromptAnswer::No => PromptOutcome::Skip,
                PromptAnswer::All => PromptOutcome::Overwrite,
                PromptAnswer::Cancel => PromptOutcome::Terminate,
                PromptAnswer::ClosedStream => PromptOutcome::Abort,
                PromptAnswer::Unrecognized => PromptOutcome::Reprompt,
            },
            *final(self) == if *old(self) == OverwritePolicy::Ask && answer == PromptAnswer::All {
                OverwritePolicy::Always
            } else {
                *old(self)
            },
            *old(self) == OverwritePolicy::Always ==> *final(self) == OverwritePolicy::Always,
    {
        match answer {
            PromptAnswer::Yes => PromptOutcome::Overwrite,
            PromptAnswer::No => PromptOutcome::Skip,
            PromptAnswer::All => {
                if *self == OverwritePolicy::Ask {
                    *self = OverwritePolicy::Always;
                }
                PromptOutcome::Overwrite
            },
            PromptAnswer::Cancel => PromptOutcome::Terminate,
            PromptAnswer::ClosedStream => PromptOutcome::Abort,
            PromptAnswer::Unrecognized => PromptOutcome::Reprompt,
        }
    }
}

/// The shape of the user's dotfile: an endpoint override and a default
/// verbosity.
#[derive(Debug, PartialEq, Eq)]
pub struct Dotfile {
    pub endpoint: String,
    pub verbosity: Option<isize>,
}

/// The client's configuration for one command invocation.
#[derive(Debug)]
pub struct Config {
    pub cookie_file: Option<String>,
    pub dotfile: Option<String>,
    pub endpoint: String,
    pub on_behalf: Option<String>,
    pub overwrite: OverwritePolicy,
    pub verbosity: isize,
    pub json_output: bool,
}

impl Config {
    /// The defaults: ask before overwriting, verbosity one, and the
    /// stock endpoint. The dotfile and cookie-file locations come from
    /// the environment, which the caller probes.
    pub fn new() -> (r: Self)
        ensures
            r.cookie_file is None,
            r.dotfile is None,
            r.endpoint@ == "https://stewie.cs.northwestern.edu"@,
            r.on_behalf is None,
            r.overwrite == OverwritePolicy::Ask,
            r.verbosity == 1,
            !r.json_output,
    {
        Config {
            cookie_file: None,
            dotfile: None,
            endpoint: String::from_str("https://stewie.cs.northwestern.edu"),
            on_behalf: None,
            overwrite: OverwritePolicy::Ask,
            verbosity: 1,
            json_output: false,
        }
    }

    pub fn get_on_behalf(&self) -> (r: Option<&String>)
        ensures
            r matches Some(u) ==> self.on_behalf == Some(*u),
            r is None ==> self.on_behalf is None,
    {
        self.on_behalf.as_ref()
    }

    pub fn set_on_behalf(&mut self, username: String)
        ensures
            *final(self) == (Config { on_behalf: Some(username), ..*old(self) }),
    {
        self.on_behalf = Some(username);
    }

    pub fn get_overwrite_policy(&self) -> (r: OverwritePolicy)
        ensures
            r == self.overwrite,
    {
        self.overwrite
    }

    pub fn set_overwrite_policy(&mut self, op: OverwritePolicy)
        ensures
            *final(self) == (Config { overwrite: op, ..*old(self) }),
    {
        self.overwrite = op;
    }

    pub fn get_verbosity(&self) -> (r: isize)
        ensures
            r == self.verbosity,
    {
        self.verbosity
    }

    pub fn set_verbosity(&mut self, verbosity: isize)
        ensures
            *final(self) == (Config { verbosity, ..*old(self) }),
    {
        self.verbosity = verbosity;
    }

    pub fn json_output(&self) -> (r: bool)
        ensures
            r == self.json_output,
    {
        self.json_output
    }

    pub fn set_json_output(&mut self, json_output: bool)
        ensures
            *final(self) == (Config { json_output, ..*old(self) }),
    {
        self.json_output = json_output;
    }

    pub fn get_endpoint(&self) -> (r: &String)
        ensures
            r == &self.endpoint,
    {
        &self.endpoint
    }

    pub fn set_cookie_file(&mut self, path: Option<String>)
        ensures
            *final(self) == (Config { cookie_file: path, ..*old(self) }),
    {
        self.cookie_file = path;
    }

    pub fn set_dotfile(&mut self, path: Option<String>)
        ensures
            *final(self) == (Config { dotfile: path, ..*old(self) }),
    {
        self.dotfile = path;
    }

    /// The cookie file's path; a command that needs credentials fails
    /// without one.
    pub fn get_cookie_file(&self) -> (r: Result<&String, Error>)
        ensures
            self.cookie_file matches Some(f) ==> (r matches Ok(g) && g == &f),
            self.cookie_file is None ==> (r matches Err(e) && e.kind
                == ErrorKind::NoCookieFileGiven),
    {
        match &self.cookie_file {
            Some(filename) => Ok(filename),
            None => Err(Error::from_kind(ErrorKind::NoCookieFileGiven)),
        }
    }

    pub fn get_dotfile(&self) -> (r: Option<&String>)
        ensures
            r matches Some(f) ==> self.dotfile == Some(*f),
            r is None ==> self.dotfile is None,
    {
        self.dotfile.as_ref()
    }

    /// Fold a parsed dotfile in: a nonempty endpoint overrides the
    /// default, and a stated verbosity replaces it. Nothing else moves.
    pub fn load_dotfile(&mut self, dotfile: Option<Dotfile>)
        ensures
            match dotfile {
                Some(d) => {
                    &&& final(self).endpoint == if d.endpoint@.len() > 0 {
                        d.endpoint
                    } else {
                        old(self).endpoint
                    }
                    &&& final(self).verbosity == if d.verbosity is Some {
                        d.verbosity->0
                    } else {
                        old(self).verbosity
                    }
                },
                None => final(self).endpoint == old(self).endpoint && final(self).verbosity == old(
                    self,
                ).verbosity,
            },
            final(self).cookie_file == old(self).cookie_file,
            final(self).dotfile == old(self).dotfile,
            final(self).on_behalf == old(self).on_behalf,
            final(self).overwrite == old(self).overwrite,
            final(self).json_output == old(self).json_output,
    {
        if let Some(d) = dotfile {
            if !d.endpoint.as_str().is_empty() {
                self.endpoint = d.endpoint;
            }
            if let Some(i) = d.verbosity {
                self.verbosity = i;
            }
        }
    }
}

} // verus!
