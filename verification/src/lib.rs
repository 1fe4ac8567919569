//! open-here: open a URL or a file on the local workstation from a remote
//! host.  The library holds the verified core: the `OpenTarget` model, the
//! platform opener commands, the dry-run/runner planning, and the JSON wire
//! envelope shared by the HTTP client and server.

pub mod cli;
pub mod client;
pub mod cmd;
pub mod server;
pub mod text;
pub mod wire;

use vstd::prelude::*;
use vstd::string::StringExecFns;

verus! {

/// A URL to hand verbatim to the platform opener.
#[derive(Debug)]
pub struct UrlTarget {
    pub target: String,
}

/// A named byte payload to materialise on the server before opening.
#[derive(Debug)]
pub struct PathTarget {
    pub filename: String,
    pub content: Vec<u8>,
}

/// What an open request asks for: a URL, or a file payload.
#[derive(Debug)]
pub enum OpenTarget {
    Url(UrlTarget),
    Path(PathTarget),
}

/// Mathematical model of a `UrlTarget`.
pub struct UrlTargetModel {
    pub target: Seq<char>,
}

/// Mathematical model of a `PathTarget`.
pub struct PathTargetModel {
    pub filename: Seq<char>,
    pub content: Seq<u8>,
}

/// Mathematical model of an `OpenTarget`.
pub enum OpenTargetModel {
    Url(UrlTargetModel),
    Path(PathTargetModel),
}

impl View for UrlTarget {
    type V = UrlTargetModel;

    open spec fn view(&self) -> UrlTargetModel {
        UrlTargetModel { target: self.target@ }
    }
}

impl View for PathTarget {
    type V = PathTargetModel;

    open spec fn view(&self) -> PathTargetModel {
        PathTargetModel { filename: self.filename@, content: self.content@ }
    }
}

impl View for OpenTarget {
    type V = OpenTargetModel;

    open spec fn view(&self) -> OpenTargetModel {
        match self {
            OpenTarget::Url(u) => OpenTargetModel::Url(u@),
            OpenTarget::Path(p) => OpenTargetModel::Path(p@),
        }
    }
}

/// What probing the local filesystem for a target string found.  Produced by
/// the unverified shell around the library, consumed by `OpenTarget::new`.
#[derive(Debug)]
pub enum FileProbe {
    /// No filesystem entry of that name exists.
    Missing,
    /// The entry exists and these are its bytes.
    Found(Vec<u8>),
    /// The entry exists but could not be read; the message says why.
    Unreadable(String),
}

/// Mathematical model of a `FileProbe`.
pub enum FileProbeModel {
    Missing,
    Found(Seq<u8>),
    Unreadable(Seq<char>),
}

impl View for FileProbe {
    type V = FileProbeModel;

    open spec fn view(&self) -> FileProbeModel {
        match self {
            FileProbe::Missing => FileProbeModel::Missing,
            FileProbe::Found(c) => FileProbeModel::Found(c@),
            FileProbe::Unreadable(m) => FileProbeModel::Unreadable(m@),
        }
    }
}

/// An error raised while turning a string into an `OpenTarget`.
#[derive(Debug)]
pub enum Error {
    /// The string is neither a URL nor the name of an existing file.
    UnknownTarget(String),
    /// The named file exists but reading it failed.
    File(String),
}

/// Mathematical model of a target-parsing `Error`.
pub enum ErrorModel {
    UnknownTarget(Seq<char>),
    File(Seq<char>),
}

impl View for Error {
    type V = ErrorModel;

    open spec fn view(&self) -> ErrorModel {
        match self {
            Error::UnknownTarget(s) => ErrorModel::UnknownTarget(s@),
            Error::File(m) => ErrorModel::File(m@),
        }
    }
}

/// Whether `s` begins with `http://` or `https://`.
pub open spec fn is_url_string(s: Seq<char>) -> bool {
    "http://"@.is_prefix_of(s) || "https://"@.is_prefix_of(s)
}

/// The parsing rule for a free-form target string `s`, given what probing the
/// filesystem for `s` found: a URL prefix wins, then an existing file, and
/// anything else is unknown.
pub open spec fn parse_spec(s: Seq<char>, probe: FileProbeModel) -> Result<
    OpenTargetModel,
    ErrorModel,
> {
    if is_url_string(s) {
        Ok(OpenTargetModel::Url(UrlTargetModel { target: s }))
    } else {
        match probe {
            FileProbeModel::Found(content) => Ok(
                OpenTargetModel::Path(PathTargetModel { filename: s, content }),
            ),
            FileProbeModel::Unreadable(m) => Err(ErrorModel::File(m)),
            FileProbeModel::Missing => Err(ErrorModel::UnknownTarget(s)),
        }
    }
}

impl OpenTarget {
    /// Parse `s` into an `OpenTarget`.  `probe` reports whether `s` names an
    /// existing local file and, if so, its bytes; it is only consulted when
    /// `s` does not carry a URL scheme prefix.
    pub fn new(s: &str, probe: FileProbe) -> (r: Result<OpenTarget, Error>)
        ensures
            match r {
                Ok(t) => parse_spec(s@, probe@) == Ok::<OpenTargetModel, ErrorModel>(t@),
                Err(e) => parse_spec(s@, probe@) == Err::<OpenTargetModel, ErrorModel>(e@),
            },
    {
        if text::str_has_prefix(s, "http://") || text::str_has_prefix(s, "https://") {
            Ok(OpenTarget::Url(UrlTarget { target: String::from_str(s) }))
        } else {
            match probe {
                FileProbe::Found(content) => Ok(
                    OpenTarget::Path(PathTarget { filename: String::from_str(s), content }),
                ),
                FileProbe::Unreadable(m) => Err(Error::File(m)),
                FileProbe::Missing => Err(Error::UnknownTarget(String::from_str(s))),
            }
        }
    }
}

/// A parsed `Url` target carries the input string unchanged, and only ever
/// arises from a string with a URL scheme prefix.
pub proof fn lemma_parse_url_exact(s: Seq<char>, probe: FileProbeModel)
    ensures
        forall|u: UrlTargetModel|
            parse_spec(s, probe) == Ok::<OpenTargetModel, ErrorModel>(OpenTargetModel::Url(u))
                ==> u.target == s && is_url_string(s),
{
}

/// The printable summary of an `OpenTarget`: the URL itself, or
/// `<filename>, len: <N>` for a payload of `N` bytes.
pub open spec fn display_spec(t: OpenTargetModel) -> Seq<char> {
    match t {
        OpenTargetModel::Url(u) => u.target,
        OpenTargetModel::Path(p) => p.filename + ", len: "@ + text::dec_str(p.content.len()),
    }
}

impl OpenTarget {
    /// Render the printable summary of this target.
    pub fn display_string(&self) -> (s: String)
        ensures
            s@ == display_spec(self@),
    {
        match self {
            OpenTarget::Url(u) => u.target.clone(),
            OpenTarget::Path(p) => {
                let n = text::usize_to_string(p.content.len());
                String::from_str(p.filename.as_str()).concat(", len: ").concat(n.as_str())
            },
        }
    }
}

impl Error {
    /// Render this error as the message the command line prints.
    pub fn display_string(&self) -> (s: String)
        ensures
            s@ == match self@ {
                ErrorModel::UnknownTarget(t) => "Unknown target to open: "@ + t,
                ErrorModel::File(m) => "File error: "@ + m,
            },
    {
        match self {
            Error::UnknownTarget(t) => String::from_str("Unknown target to open: ").concat(
                t.as_str(),
            ),
            Error::File(m) => String::from_str("File error: ").concat(m.as_str()),
        }
    }
}

/// What every endpoint answers: a success string (the dry-run summary, or
/// an empty string for a real run) or the runner's error.
pub type Response = Result<String, cmd::Error>;

/// The log level name selected by `-v` occurrences: `error` for none, one
/// step louder per occurrence, clamped at `trace`.
pub open spec fn log_level_spec(verbosity: nat) -> Seq<char> {
    if verbosity == 0 {
        "error"@
    } else if verbosity == 1 {
        "warn"@
    } else if verbosity == 2 {
        "info"@
    } else if verbosity == 3 {
        "debug"@
    } else {
        "trace"@
    }
}

/// The default log level filter for a given `-v` count.
pub fn log_level_name(verbosity: u8) -> (s: &'static str)
    ensures
        s@ == log_level_spec(verbosity as nat),
{
    let level = clamp(verbosity as usize, 0, 4);
    if level == 0 {
        "error"
    } else if level == 1 {
        "warn"
    } else if level == 2 {
        "info"
    } else if level == 3 {
        "debug"
    } else {
        "trace"
    }
}

/// Clamp `x` into the inclusive range `[min, max]` (assuming `min <= max`).
pub fn clamp(x: usize, min: usize, max: usize) -> (r: usize)
    requires
        min <= max,
    ensures
        min <= r <= max,
        r == if x < min {
            min
        } else if x > max {
            max
        } else {
            x
        },
{
    if x < min {
        min
    } else if x > max {
        max
    } else {
        x
    }
}

} // verus!
