//! The command to run: platform opener selection, command construction, and
//! the runner's planning of temp-file writes and dry-run summaries.

use crate::text;
use crate::OpenTarget;
use crate::OpenTargetModel;
use vstd::prelude::*;
use vstd::string::StrSliceExecFns;
use vstd::string::StringExecFns;

verus! {

/// An error raised while materialising a payload or spawning the opener.
#[derive(Debug)]
pub enum Error {
    /// The opener subprocess failed to spawn.
    CouldNotRun(String),
    /// The temp directory could not be created, or the payload's filename
    /// would escape it.
    CreateDirectory(String),
    /// The temp file could not be created or opened.
    OpenFile(String),
    /// Writing the payload to the temp file failed.
    WriteFile(String),
}

/// Mathematical model of a runner `Error`.
pub enum ErrorModel {
    CouldNotRun(Seq<char>),
    CreateDirectory(Seq<char>),
    OpenFile(Seq<char>),
    WriteFile(Seq<char>),
}

impl View for Error {
    type V = ErrorModel;

    open spec fn view(&self) -> ErrorModel {
        match self {
            Error::CouldNotRun(m) => ErrorModel::CouldNotRun(m@),
            Error::CreateDirectory(m) => ErrorModel::CreateDirectory(m@),
            Error::OpenFile(m) => ErrorModel::OpenFile(m@),
            Error::WriteFile(m) => ErrorModel::WriteFile(m@),
        }
    }
}

/// The message a runner `Error` prints.
pub open spec fn error_display_spec(e: ErrorModel) -> Seq<char> {
    match e {
        ErrorModel::CouldNotRun(m) => "Could not run: "@ + m,
        ErrorModel::CreateDirectory(m) => "Could not create directory: "@ + m,
        ErrorModel::OpenFile(m) => "Could open file: "@ + m,
        ErrorModel::WriteFile(m) => "Could write file: "@ + m,
    }
}

impl Error {
    /// Render this error as the message it logs and prints.
    pub fn display_string(&self) -> (s: String)
        ensures
            s@ == error_display_spec(self@),
    {
        match self {
            Error::CouldNotRun(m) => String::from_str("Could not run: ").concat(m.as_str()),
            Error::CreateDirectory(m) => String::from_str("Could not create directory: ").concat(
                m.as_str(),
            ),
            Error::OpenFile(m) => String::from_str("Could open file: ").concat(m.as_str()),
            Error::WriteFile(m) => String::from_str("Could write file: ").concat(m.as_str()),
        }
    }
}

/// The platform's native "open" mechanism.
#[derive(Debug, Clone, Copy, PartialEq, Eq, Structural)]
pub enum Opener {
    /// The Linux `xdg-open` command.
    XdgOpen,
    /// The macOS `open` command.
    Open,
    /// The Windows `cmd /c start` command.
    Start,
}

/// A fully-formed command line: the program and its arguments in order.
#[derive(Debug)]
pub struct OpenCommand {
    pub program: String,
    pub args: Vec<String>,
}

/// Mathematical model of an `OpenCommand`.
pub struct OpenCommandModel {
    pub program: Seq<char>,
    pub args: Seq<Seq<char>>,
}

impl View for OpenCommand {
    type V = OpenCommandModel;

    open spec fn view(&self) -> OpenCommandModel {
        OpenCommandModel { program: self.program@, args: self.args.deep_view() }
    }
}

/// The command an opener runs on a target string.
pub open spec fn opener_cmd_spec(o: Opener, target: Seq<char>) -> OpenCommandModel {
    match o {
        Opener::XdgOpen => OpenCommandModel { program: "xdg-open"@, args: seq![target] },
        Opener::Open => OpenCommandModel { program: "open"@, args: seq![target] },
        Opener::Start => OpenCommandModel { program: "cmd"@, args: seq!["/c"@, "start"@, target] },
    }
}

impl Opener {
    /// The full command line this opener runs on `target`.
    pub fn cmd(&self, target: &str) -> (c: OpenCommand)
        ensures
            c@ == opener_cmd_spec(*self, target@),
    {
        match self {
            Opener::XdgOpen => {
                let c = OpenCommand {
                    program: String::from_str("xdg-open"),
                    args: vec![String::from_str(target)],
                };
                proof {
                    assert(c.args.deep_view() =~= seq![target@]);
                }
                c
            },
            Opener::Open => {
                let c = OpenCommand {
                    program: String::from_str("open"),
                    args: vec![String::from_str(target)],
                };
                proof {
                    assert(c.args.deep_view() =~= seq![target@]);
                }
                c
            },
            Opener::Start => {
                let c = OpenCommand {
                    program: String::from_str("cmd"),
                    args: vec![
                        String::from_str("/c"),
                        String::from_str("start"),
                        String::from_str(target),
                    ],
                };
                proof {
                    assert(c.args.deep_view() =~= seq!["/c"@, "start"@, target@]);
                }
                c
            },
        }
    }
}

/// Arguments joined by single spaces.
pub open spec fn join_spaces(args: Seq<Seq<char>>) -> Seq<char>
    decreases args.len(),
{
    if args.len() == 0 {
        Seq::empty()
    } else if args.len() == 1 {
        args[0]
    } else {
        args[0] + seq![' '] + join_spaces(args.drop_first())
    }
}

/// The pretty-printed form of a command: `program arg1 arg2 ...`.
pub open spec fn command_display_spec(c: OpenCommandModel) -> Seq<char> {
    c.program + seq![' '] + join_spaces(c.args)
}

/// The arguments from index `i` on, joined by single spaces.
fn join_args_from(args: &Vec<String>, i: usize) -> (s: String)
    requires
        i <= args@.len(),
    ensures
        s@ == join_spaces(args.deep_view().skip(i as int)),
    decreases args@.len() - i,
{
    if i >= args.len() {
        let s = String::new();
        proof {
            assert(args.deep_view().skip(i as int) =~= Seq::<Seq<char>>::empty());
        }
        s
    } else if i + 1 == args.len() {
        let s = args[i].clone();
        proof {
            assert(args.deep_view().skip(i as int) =~= seq![args@[i as int]@]);
        }
        s
    } else {
        let rest = join_args_from(args, i + 1);
        let s = args[i].clone().concat(" ").concat(rest.as_str());
        proof {
            reveal_strlit(" ");
            let dv = args.deep_view();
            assert(" "@ =~= seq![' ']);
            assert(dv.skip(i as int).drop_first() =~= dv.skip(i + 1));
            assert(dv.skip(i as int)[0] == args@[i as int]@);
            assert(s@ =~= join_spaces(dv.skip(i as int)));
        }
        s
    }
}

/// The filename with any leading `/` separators removed.
pub open spec fn strip_leading_slashes(s: Seq<char>) -> Seq<char>
    decreases s.len(),
{
    if s.len() > 0 && s[0] == '/' {
        strip_leading_slashes(s.drop_first())
    } else {
        s
    }
}

/// Whether two adjacent `/` separators stand at position `i` of `t`.
pub open spec fn slash_pair_at(t: Seq<char>, i: int) -> bool {
    &&& 0 <= i
    &&& i + 2 <= t.len()
    &&& t[i] == '/'
    &&& t[i + 1] == '/'
}

/// Whether a `.` path component occupies position `i` of `t`.
pub open spec fn dot_component_at(t: Seq<char>, i: int) -> bool {
    &&& 0 <= i < t.len()
    &&& t[i] == '.'
    &&& i == 0 || t[i - 1] == '/'
    &&& i + 1 == t.len() || t[i + 1] == '/'
}

/// Whether a `..` path component occupies positions `i` and `i + 1` of `t`.
pub open spec fn dotdot_component_at(t: Seq<char>, i: int) -> bool {
    &&& 0 <= i
    &&& i + 2 <= t.len()
    &&& t[i] == '.'
    &&& t[i + 1] == '.'
    &&& i == 0 || t[i - 1] == '/'
    &&& i + 2 == t.len() || t[i + 2] == '/'
}

/// A safe relative path: non-empty, relative, ending in a component, with no
/// empty, `.` or `..` component.  Joining such a path under the temp
/// directory cannot name anything outside it.
pub open spec fn safe_rel_path(t: Seq<char>) -> bool {
    &&& t.len() > 0
    &&& t[0] != '/'
    &&& t[t.len() - 1] != '/'
    &&& forall|i: int| !slash_pair_at(t, i)
    &&& forall|i: int| !dot_component_at(t, i)
    &&& forall|i: int| !dotdot_component_at(t, i)
}

/// Sanitise a caller-provided filename into a path that is safe to join
/// under the temp directory: leading separators are stripped (an absolute
/// name is taken as relative), and a name with an empty, `.` or `..`
/// component is rejected.
pub fn sanitise_filename(filename: &str) -> (r: Option<String>)
    ensures
        match r {
            Some(p) => p@ == strip_leading_slashes(filename@) && safe_rel_path(p@),
            None => !safe_rel_path(strip_leading_slashes(filename@)),
        },
{
    let n = filename.unicode_len();
    proof {
        assert(filename@.skip(0) =~= filename@);
    }
    let mut start: usize = 0;
    while start < n && filename.get_char(start) == '/'
        invariant
            start <= n,
            n == filename@.len(),
            strip_leading_slashes(filename@) == strip_leading_slashes(
                filename@.skip(start as int),
            ),
        decreases n - start,
    {
        proof {
            assert(filename@.skip(start as int).drop_first() =~= filename@.skip(start as int + 1));
        }
        start = start + 1;
    }
    let ghost t = filename@.skip(start as int);
    proof {
        assert(strip_leading_slashes(t) == t);
        assert(strip_leading_slashes(filename@) == t);
    }
    if start == n {
        proof {
            assert(t =~= Seq::<char>::empty());
        }
        return None;
    }
    let sub = filename.substring_char(start, n);
    proof {
        assert(sub@ =~= t);
        assert(t[0] != '/');
    }
    let v = text::str_chars(sub);
    let len = v.len();
    let mut k: usize = 0;
    let mut cs: usize = 0;
    while k < len
        invariant
            cs <= k <= len,
            len == t.len(),
            v@ == t,
            t == strip_leading_slashes(filename@),
            t[0] != '/',
            cs == 0 || t[cs - 1] == '/',
            forall|j: int| cs <= j < k ==> t[j] != '/',
            forall|j: int| slash_pair_at(t, j) ==> j + 2 > k,
            forall|j: int| dot_component_at(t, j) ==> j + 1 >= k,
            forall|j: int| dotdot_component_at(t, j) ==> j + 2 >= k,
        decreases len - k,
    {
        if v[k] == '/' {
            if k == cs {
                proof {
                    assert(cs > 0);
                    assert(slash_pair_at(t, cs - 1));
                }
                return None;
            }
            if k - cs == 1 && v[cs] == '.' {
                proof {
                    assert(dot_component_at(t, cs as int));
                }
                return None;
            }
            if k - cs == 2 && v[cs] == '.' && v[cs + 1] == '.' {
                proof {
                    assert(dotdot_component_at(t, cs as int));
                }
                return None;
            }
            proof {
                assert forall|j: int| slash_pair_at(t, j) implies j + 2 > k + 1 by {
                    if j + 2 == k + 1 {
                        assert(cs <= j < k);
                        assert(t[j] != '/');
                    }
                }
                assert forall|j: int| dot_component_at(t, j) implies j + 1 >= k + 1 by {
                    if j + 1 == k {
                        assert(cs <= j < k);
                        if j > cs {
                            assert(t[j - 1] != '/');
                        }
                        assert(j == cs);
                    }
                }
                assert forall|j: int| dotdot_component_at(t, j) implies j + 2 >= k + 1 by {
                    if j + 2 == k {
                        assert(cs <= j < k);
                        if j > cs {
                            assert(t[j - 1] != '/');
                        }
                        assert(j == cs);
                    }
                }
            }
            cs = k + 1;
        } else {
            proof {
                assert forall|j: int| slash_pair_at(t, j) implies j + 2 > k + 1 by {
                    if j + 2 == k + 1 {
                        assert(t[j + 1] == t[k as int]);
                    }
                }
                assert forall|j: int| dot_component_at(t, j) implies j + 1 >= k + 1 by {
                    if j + 1 == k {
                        assert(t[j + 1] == t[k as int]);
                    }
                }
                assert forall|j: int| dotdot_component_at(t, j) implies j + 2 >= k + 1 by {
                    if j + 2 == k {
                        assert(t[j + 2] == t[k as int]);
                    }
                }
            }
        }
        k = k + 1;
    }
    if cs == len {
        proof {
            assert(t[len - 1] == '/');
        }
        return None;
    }
    if len - cs == 1 && v[cs] == '.' {
        proof {
            assert(dot_component_at(t, cs as int));
        }
        return None;
    }
    if len - cs == 2 && v[cs] == '.' && v[cs + 1] == '.' {
        proof {
            assert(dotdot_component_at(t, cs as int));
        }
        return None;
    }
    proof {
        assert(t[len - 1] != '/');
        assert forall|i: int| !dot_component_at(t, i) by {
            if dot_component_at(t, i) {
                assert(i + 1 == len);
                assert(i == cs);
            }
        }
        assert forall|i: int| !dotdot_component_at(t, i) by {
            if dotdot_component_at(t, i) {
                assert(i + 2 == len);
                assert(i == cs);
            }
        }
        assert(safe_rel_path(t));
    }
    Some(String::from_str(sub))
}

impl OpenCommand {
    /// Render this command as `program arg1 arg2 ...`.
    pub fn display_string(&self) -> (s: String)
        ensures
            s@ == command_display_spec(self@),
    {
        let s = String::from_str(self.program.as_str()).concat(" ").concat(
            join_args_from(&self.args, 0).as_str(),
        );
        proof {
            reveal_strlit(" ");
            assert(" "@ =~= seq![' ']);
            assert(self.args.deep_view().skip(0) =~= self.args.deep_view());
            assert(s@ =~= command_display_spec(self@));
        }
        s
    }
}


/// A pending temp-file write: the destination path and the payload bytes.
#[derive(Debug)]
pub struct WritePlan {
    pub path: String,
    pub content: Vec<u8>,
}

/// Mathematical model of a `WritePlan`.
pub struct WritePlanModel {
    pub path: Seq<char>,
    pub content: Seq<u8>,
}

impl View for WritePlan {
    type V = WritePlanModel;

    open spec fn view(&self) -> WritePlanModel {
        WritePlanModel { path: self.path@, content: self.content@ }
    }
}

/// The destination of a payload: its safe relative path joined under the
/// `open-here` directory inside the temp directory.
pub open spec fn dest_path_spec(tmp_dir: Seq<char>, rel: Seq<char>) -> Seq<char> {
    tmp_dir + "/open-here/"@ + rel
}

/// What the runner plans for a target: the command to spawn, and, for a
/// payload target, the temp-file write that must happen first.  A payload
/// whose filename cannot be made safe is rejected.
pub open spec fn plan_spec(o: Opener, t: OpenTargetModel, tmp_dir: Seq<char>) -> Result<
    (OpenCommandModel, Option<WritePlanModel>),
    ErrorModel,
> {
    match t {
        OpenTargetModel::Url(u) => Ok((opener_cmd_spec(o, u.target), None)),
        OpenTargetModel::Path(p) => {
            let rel = strip_leading_slashes(p.filename);
            if safe_rel_path(rel) {
                let path = dest_path_spec(tmp_dir, rel);
                Ok(
                    (
                        opener_cmd_spec(o, path),
                        Some(WritePlanModel { path, content: p.content }),
                    ),
                )
            } else {
                Err(ErrorModel::CreateDirectory("unsafe filename: "@ + p.filename))
            }
        },
    }
}

/// The model of an optional pending write.
pub open spec fn write_plan_opt_model(w: Option<WritePlan>) -> Option<WritePlanModel> {
    match w {
        Some(p) => Some(p@),
        None => None,
    }
}

/// The dry-run summary for a target: the command the runner would spawn and,
/// for a payload target, the file it would save first.  The saved file's
/// path is shown relative to the temp directory.
pub open spec fn dry_run_spec(o: Opener, t: OpenTargetModel) -> Result<Seq<char>, ErrorModel> {
    match t {
        OpenTargetModel::Url(u) => Ok(
            "Would run: "@ + command_display_spec(opener_cmd_spec(o, u.target)),
        ),
        OpenTargetModel::Path(p) => {
            let rel = strip_leading_slashes(p.filename);
            if safe_rel_path(rel) {
                let dest = "open-here/"@ + rel;
                Ok(
                    "Would save: "@ + dest + "; Would run: "@ + command_display_spec(
                        opener_cmd_spec(o, dest),
                    ),
                )
            } else {
                Err(ErrorModel::CreateDirectory("unsafe filename: "@ + p.filename))
            }
        },
    }
}

/// The server-side component that materialises payloads and spawns openers.
#[derive(Debug)]
pub struct Runner {
    pub opener: Opener,
}

impl Runner {
    /// The runner with the default `xdg-open` opener.  Probing the host
    /// platform cannot live in the verified library; a shell on a host whose
    /// opener is `open` or `cmd /c start` selects it with `Runner::new`.
    pub fn from_system_runner() -> (r: Runner)
        ensures
            r.opener == Opener::XdgOpen,
    {
        Self::new(Opener::XdgOpen)
    }

    /// A runner that opens targets with the given opener.
    pub fn new(opener: Opener) -> (r: Runner)
        ensures
            r.opener == opener,
    {
        Runner { opener }
    }

    /// Plan the command for `target`, with `tmp_dir` the system temp
    /// directory.  For a URL the command opens it directly; for a payload the
    /// plan also carries the temp-file write that must complete before the
    /// spawn, and a filename that would escape the temp directory is
    /// rejected.
    pub fn cmd(&self, target: &OpenTarget, tmp_dir: &str) -> (r: Result<
        (OpenCommand, Option<WritePlan>),
        Error,
    >)
        ensures
            match r {
                Ok(pair) => plan_spec(self.opener, target@, tmp_dir@) == Ok::<
                    (OpenCommandModel, Option<WritePlanModel>),
                    ErrorModel,
                >((pair.0@, write_plan_opt_model(pair.1))),
                Err(e) => plan_spec(self.opener, target@, tmp_dir@) == Err::<
                    (OpenCommandModel, Option<WritePlanModel>),
                    ErrorModel,
                >(e@),
            },
    {
        match target {
            OpenTarget::Url(u) => Ok((self.opener.cmd(u.target.as_str()), None)),
            OpenTarget::Path(p) => {
                match sanitise_filename(p.filename.as_str()) {
                    Some(rel) => {
                        let path = String::from_str(tmp_dir).concat("/open-here/").concat(
                            rel.as_str(),
                        );
                        let command = self.opener.cmd(path.as_str());
                        let content = p.content.clone();
                        proof {
                            assert(content@ =~= p.content@);
                        }
                        Ok((command, Some(WritePlan { path, content })))
                    },
                    None => Err(
                        Error::CreateDirectory(
                            String::from_str("unsafe filename: ").concat(p.filename.as_str()),
                        ),
                    ),
                }
            },
        }
    }

    /// Describe, without writing a file or spawning anything, what `run`
    /// would do for this target.
    pub fn dry_run(&self, target: &OpenTarget) -> (r: Result<String, Error>)
        ensures
            match r {
                Ok(s) => dry_run_spec(self.opener, target@) == Ok::<Seq<char>, ErrorModel>(s@),
                Err(e) => dry_run_spec(self.opener, target@) == Err::<Seq<char>, ErrorModel>(e@),
            },
    {
        match target {
            OpenTarget::Url(u) => {
                let command = self.opener.cmd(u.target.as_str());
                Ok(String::from_str("Would run: ").concat(command.display_string().as_str()))
            },
            OpenTarget::Path(p) => {
                match sanitise_filename(p.filename.as_str()) {
                    Some(rel) => {
                        let dest = String::from_str("open-here/").concat(rel.as_str());
                        let command = self.opener.cmd(dest.as_str());
                        let s = String::from_str("Would save: ").concat(dest.as_str()).concat(
                            "; Would run: ",
                        ).concat(command.display_string().as_str());
                        Ok(s)
                    },
                    None => Err(
                        Error::CreateDirectory(
                            String::from_str("unsafe filename: ").concat(p.filename.as_str()),
                        ),
                    ),
                }
            },
        }
    }
}

/// Dry runs are idempotent: the summary is a function of the opener and
/// the target alone, so repeated dry runs of one target yield identical
/// strings.
pub proof fn lemma_dry_run_idempotent(o: Opener, t: OpenTargetModel, s1: Seq<char>, s2: Seq<char>)
    requires
        dry_run_spec(o, t) == Ok::<Seq<char>, ErrorModel>(s1),
        dry_run_spec(o, t) == Ok::<Seq<char>, ErrorModel>(s2),
    ensures
        s1 == s2,
{
}

/// A planned payload write is confined to the temp directory: its path is
/// `<tmp_dir>/open-here/` followed by a safe relative path, and its bytes
/// are exactly the payload's.
pub proof fn lemma_plan_path_confined(
    o: Opener,
    t: OpenTargetModel,
    tmp_dir: Seq<char>,
    c: OpenCommandModel,
    w: WritePlanModel,
)
    requires
        plan_spec(o, t, tmp_dir) == Ok::<(OpenCommandModel, Option<WritePlanModel>), ErrorModel>(
            (c, Some(w)),
        ),
    ensures
        (tmp_dir + "/open-here/"@).is_prefix_of(w.path),
        safe_rel_path(w.path.skip(tmp_dir.len() + "/open-here/"@.len() as int)),
        t matches OpenTargetModel::Path(p) && w.content == p.content,
{
    match t {
        OpenTargetModel::Url(_) => {
            assert(false);
        },
        OpenTargetModel::Path(p) => {
            let rel = strip_leading_slashes(p.filename);
            let pre = tmp_dir + "/open-here/"@;
            assert(w.path == pre + rel);
            assert(pre.is_prefix_of(w.path)) by {
                assert((pre + rel).subrange(0, pre.len() as int) =~= pre);
            }
            assert(w.path.skip(tmp_dir.len() + "/open-here/"@.len() as int) =~= rel);
        },
    }
}

} // verus!
