//! The server's handling of open requests: decoding, size admission, and
//! the decision of what to respond or execute.  The unverified shell owns
//! the TCP listener and the HTTP engine; it performs exactly what a
//! `Dispatch` tells it to.

use crate::cmd;
use crate::cmd::Opener;
use crate::cmd::OpenCommand;
use crate::cmd::Runner;
use crate::cmd::WritePlan;
use crate::wire;
use crate::OpenTarget;
use crate::OpenTargetModel;
use crate::PathTarget;
use crate::PathTargetModel;
use crate::Response;
use crate::UrlTargetModel;
use vstd::prelude::*;
use vstd::string::StringExecFns;

verus! {

/// Configuration for the open-here server.
#[derive(Debug, Clone)]
pub struct Config {
    /// Host and port the server should listen on.
    pub host: String,
    /// If true, report the command instead of executing it.
    pub dry_run: bool,
    /// Largest request body accepted on the path route, in bytes.
    pub max_filesize: usize,
}

/// What the server decides for one request: either a finished response
/// envelope, or the work the shell must perform — write the optional temp
/// file, then spawn the command and answer with the empty-success envelope.
#[derive(Debug)]
pub enum Dispatch {
    Respond(String),
    Execute(OpenCommand, Option<WritePlan>),
}

/// Mathematical model of a `Dispatch`.
pub enum DispatchModel {
    Respond(Seq<char>),
    Execute(cmd::OpenCommandModel, Option<cmd::WritePlanModel>),
}

impl View for Dispatch {
    type V = DispatchModel;

    open spec fn view(&self) -> DispatchModel {
        match self {
            Dispatch::Respond(s) => DispatchModel::Respond(s@),
            Dispatch::Execute(c, w) => DispatchModel::Execute(c@, cmd::write_plan_opt_model(*w)),
        }
    }
}

/// The dry-run outcome of a target, as a response.
pub open spec fn dry_run_response(o: Opener, t: OpenTargetModel) -> wire::ResponseModel {
    cmd::dry_run_spec(o, t)
}

/// The decision for one decoded target: in dry-run mode the finished
/// envelope of the dry-run summary; otherwise the planned command and
/// optional temp-file write, or the error envelope when planning fails.
pub open spec fn open_decision(
    o: Opener,
    t: OpenTargetModel,
    dry_run: bool,
    tmp_dir: Seq<char>,
) -> DispatchModel {
    if dry_run {
        DispatchModel::Respond(wire::envelope_json(dry_run_response(o, t)))
    } else {
        match cmd::plan_spec(o, t, tmp_dir) {
            Ok(pair) => DispatchModel::Execute(pair.0, pair.1),
            Err(e) => DispatchModel::Respond(wire::envelope_json(Err(e))),
        }
    }
}

/// Decide one request for an already-decoded target.
pub fn dispatch_open(runner: &Runner, target: &OpenTarget, dry_run: bool, tmp_dir: &str) -> (d:
    Dispatch)
    ensures
        d@ == open_decision(runner.opener, target@, dry_run, tmp_dir@),
{
    if dry_run {
        let resp: Response = runner.dry_run(target);
        Dispatch::Respond(wire::encode_envelope(&resp))
    } else {
        match runner.cmd(target, tmp_dir) {
            Ok(pair) => Dispatch::Execute(pair.0, pair.1),
            Err(e) => {
                let resp: Response = Err(e);
                Dispatch::Respond(wire::encode_envelope(&resp))
            },
        }
    }
}

/// Why a request is turned away before any target is built.
#[derive(Debug, PartialEq, Eq, Structural)]
pub enum Reject {
    /// The body was not a well-formed URL target.
    BadRequest,
    /// The path request body exceeds the configured maximum size.
    TooLarge,
}

/// Decide a `GET /open/url` request from its JSON body.  A body that is no
/// URL target is turned away; anything else is decided by `open_decision`
/// on the decoded target.
pub fn handle_url_request(runner: &Runner, body: &str, dry_run: bool, tmp_dir: &str) -> (r: Result<
    Dispatch,
    Reject,
>)
    ensures
        match r {
            Ok(d) => {
                &&& exists|x: Seq<char>| body@ == wire::url_body_json(x)
                &&& forall|x: Seq<char>|
                    body@ == wire::url_body_json(x) ==> d@ == open_decision(
                        runner.opener,
                        OpenTargetModel::Url(UrlTargetModel { target: x }),
                        dry_run,
                        tmp_dir@,
                    )
            },
            Err(rej) => {
                &&& rej == Reject::BadRequest
                &&& forall|x: Seq<char>| body@ != wire::url_body_json(x)
            },
        },
{
    match wire::decode_url_target(body) {
        Some(t) => {
            let ghost decoded = t@.target;
            let target = OpenTarget::Url(t);
            let d = dispatch_open(runner, &target, dry_run, tmp_dir);
            proof {
                assert forall|x: Seq<char>| body@ == wire::url_body_json(x) implies d@
                    == open_decision(
                    runner.opener,
                    OpenTargetModel::Url(UrlTargetModel { target: x }),
                    dry_run,
                    tmp_dir@,
                ) by {
                    wire::lemma_url_body_injective(x, decoded);
                }
            }
            Ok(d)
        },
        None => Err(Reject::BadRequest),
    }
}

/// Decide a `GET /open/path` request from its query filename and raw body.
/// A body longer than `max_filesize` is turned away before any target is
/// built or any plan is made; anything else is decided by `open_decision`
/// on the payload target.
pub fn handle_path_request(
    runner: &Runner,
    filename: &str,
    body: Vec<u8>,
    max_filesize: usize,
    dry_run: bool,
    tmp_dir: &str,
) -> (r: Result<Dispatch, Reject>)
    ensures
        match r {
            Ok(d) => {
                &&& body@.len() <= max_filesize
                &&& d@ == open_decision(
                    runner.opener,
                    OpenTargetModel::Path(
                        PathTargetModel { filename: filename@, content: body@ },
                    ),
                    dry_run,
                    tmp_dir@,
                )
            },
            Err(rej) => {
                &&& rej == Reject::TooLarge
                &&& body@.len() > max_filesize
            },
        },
{
    if body.len() > max_filesize {
        return Err(Reject::TooLarge);
    }
    let target = OpenTarget::Path(PathTarget { filename: String::from_str(filename), content: body });
    Ok(dispatch_open(runner, &target, dry_run, tmp_dir))
}

} // verus!
