//! Checks of the runner's planning, the filename sanitisation boundary,
//! the size admission rule, and the printable forms.

use open_here::client::OpenError;
use open_here::cmd::{sanitise_filename, Error, OpenCommand, Opener, Runner};
use open_here::server::{handle_path_request, handle_url_request, Dispatch, Reject};
use open_here::{clamp, log_level_name, FileProbe, OpenTarget, PathTarget, UrlTarget};

#[test]
fn plan_for_url_has_no_write() {
    let runner = Runner::new(Opener::XdgOpen);
    let target = OpenTarget::Url(UrlTarget {
        target: "http://x".to_string(),
    });
    let (cmd, write) = runner.cmd(&target, "/tmp").unwrap();
    assert!(write.is_none());
    assert_eq!(cmd.program, "xdg-open");
    assert_eq!(cmd.args, vec!["http://x".to_string()]);
}

#[test]
fn plan_for_path_writes_under_temp_dir() {
    let runner = Runner::new(Opener::XdgOpen);
    let target = OpenTarget::Path(PathTarget {
        filename: "/shots/img.png".to_string(),
        content: vec![9, 9],
    });
    let (cmd, write) = runner.cmd(&target, "/tmp").unwrap();
    let plan = write.expect("path target must plan a write");
    assert_eq!(plan.path, "/tmp/open-here/shots/img.png");
    assert_eq!(plan.content, vec![9, 9]);
    assert_eq!(cmd.program, "xdg-open");
    assert_eq!(cmd.args, vec!["/tmp/open-here/shots/img.png".to_string()]);
}

#[test]
fn plan_rejects_traversal() {
    let runner = Runner::new(Opener::XdgOpen);
    let target = OpenTarget::Path(PathTarget {
        filename: "../etc/passwd".to_string(),
        content: vec![],
    });
    match runner.cmd(&target, "/tmp") {
        Err(Error::CreateDirectory(m)) => assert!(m.contains("../etc/passwd")),
        _ => panic!("expected CreateDirectory error"),
    }
}

#[test]
fn sanitise_boundary_cases() {
    assert!(sanitise_filename("").is_none());
    assert!(sanitise_filename("./").is_none());
    assert!(sanitise_filename("../etc/passwd").is_none());
    assert!(sanitise_filename("a/../b").is_none());
    assert!(sanitise_filename("a//b").is_none());
    assert!(sanitise_filename("a/.").is_none());
    assert!(sanitise_filename("trailing/").is_none());
    assert_eq!(sanitise_filename("/etc/passwd").unwrap(), "etc/passwd");
    assert_eq!(sanitise_filename("///deep/name.txt").unwrap(), "deep/name.txt");
    assert_eq!(sanitise_filename("image.png").unwrap(), "image.png");
    assert_eq!(sanitise_filename("..hidden").unwrap(), "..hidden");
    assert_eq!(sanitise_filename("a.b/c.d").unwrap(), "a.b/c.d");
}

#[test]
fn oversized_path_body_is_rejected_before_planning() {
    let runner = Runner::new(Opener::XdgOpen);
    let body = vec![0u8; 11];
    let r = handle_path_request(&runner, "big.bin", body, 10, true, "/tmp");
    assert!(matches!(r, Err(Reject::TooLarge)));
}

#[test]
fn body_at_limit_is_admitted() {
    let runner = Runner::new(Opener::XdgOpen);
    let body = vec![0u8; 10];
    let r = handle_path_request(&runner, "ok.bin", body, 10, true, "/tmp");
    assert!(r.is_ok());
}

#[test]
fn execute_dispatch_carries_plan() {
    let runner = Runner::new(Opener::XdgOpen);
    let r = handle_path_request(&runner, "shot.png", vec![1], 100, false, "/tmp");
    match r {
        Ok(Dispatch::Execute(cmd, Some(plan))) => {
            assert_eq!(plan.path, "/tmp/open-here/shot.png");
            assert_eq!(plan.content, vec![1]);
            assert_eq!(cmd.args, vec!["/tmp/open-here/shot.png".to_string()]);
        }
        _ => panic!("expected an execute dispatch with a write plan"),
    }
}

#[test]
fn command_display_joins_args() {
    let c = OpenCommand {
        program: "cmd".to_string(),
        args: vec!["/c".to_string(), "start".to_string(), "http://x".to_string()],
    };
    assert_eq!(c.display_string(), "cmd /c start http://x");
}

#[test]
fn error_messages_are_exact() {
    assert_eq!(
        Error::CouldNotRun("a".to_string()).display_string(),
        "Could not run: a"
    );
    assert_eq!(
        Error::CreateDirectory("b".to_string()).display_string(),
        "Could not create directory: b"
    );
    assert_eq!(Error::OpenFile("c".to_string()).display_string(), "Could open file: c");
    assert_eq!(Error::WriteFile("d".to_string()).display_string(), "Could write file: d");
    assert_eq!(
        open_here::Error::UnknownTarget("x".to_string()).display_string(),
        "Unknown target to open: x"
    );
    assert_eq!(
        open_here::Error::File("why".to_string()).display_string(),
        "File error: why"
    );
    let http = OpenError::HttpError {
        msg: "409 Conflict".to_string(),
    };
    assert_eq!(http.display_string(), "Open failed with HTTP error: 409 Conflict");
    let server = OpenError::ServerError {
        err: Error::CouldNotRun("gone".to_string()),
    };
    assert_eq!(
        server.display_string(),
        "Open failed with server error: Could not run: gone"
    );
}

#[test]
fn target_display_summarises() {
    let url = OpenTarget::Url(UrlTarget {
        target: "http://x".to_string(),
    });
    assert_eq!(url.display_string(), "http://x");
    let path = OpenTarget::Path(PathTarget {
        filename: "image.png".to_string(),
        content: vec![0; 1040],
    });
    assert_eq!(path.display_string(), "image.png, len: 1040");
}

#[test]
fn parse_probe_is_ignored_for_urls() {
    let r = OpenTarget::new("https://a", FileProbe::Unreadable("ignored".to_string()));
    assert!(matches!(r, Ok(OpenTarget::Url(_))));
}

#[test]
fn clamp_and_log_levels() {
    assert_eq!(clamp(5, 0, 4), 4);
    assert_eq!(clamp(2, 0, 4), 2);
    assert_eq!(clamp(1, 3, 4), 3);
    assert_eq!(log_level_name(0), "error");
    assert_eq!(log_level_name(1), "warn");
    assert_eq!(log_level_name(2), "info");
    assert_eq!(log_level_name(3), "debug");
    assert_eq!(log_level_name(4), "trace");
    assert_eq!(log_level_name(9), "trace");
}

#[test]
fn malformed_url_body_is_bad_request() {
    let runner = Runner::new(Opener::XdgOpen);
    let r = handle_url_request(&runner, "not a body", true, "/tmp");
    assert!(matches!(r, Err(Reject::BadRequest)));
}

#[test]
fn url_execute_dispatch_has_no_write() {
    let runner = Runner::new(Opener::XdgOpen);
    let body = "{\"target\":\"http://x\"}";
    match handle_url_request(&runner, body, false, "/tmp") {
        Ok(Dispatch::Execute(cmd, write)) => {
            assert!(write.is_none());
            assert_eq!(cmd.program, "xdg-open");
            assert_eq!(cmd.args, vec!["http://x".to_string()]);
        }
        _ => panic!("expected an execute dispatch"),
    }
}
