//! End-to-end checks of the open pipeline at the library level: a client
//! encodes a request, the server decides it in dry-run mode, and the client
//! decodes the resulting envelope.

use open_here::client::decode_reply;
use open_here::cmd::{Opener, Runner};
use open_here::server::{handle_path_request, handle_url_request, Dispatch};
use open_here::wire::encode_url_target;
use open_here::{FileProbe, OpenTarget, PathTarget, UrlTarget};

#[test]
fn test_open_url() {
    let target = "http://localhost:1234".to_string();

    let runner = Runner::from_system_runner();
    let body = encode_url_target(&UrlTarget {
        target: target.clone(),
    });

    let decision = handle_url_request(&runner, &body, true, "/tmp").unwrap();
    let envelope = match decision {
        Dispatch::Respond(s) => s,
        Dispatch::Execute(_, _) => panic!("dry run must not execute"),
    };

    let res = decode_reply(true, "200 OK", &envelope).unwrap();

    assert!(res.contains("Would run:") && res.contains(&target));
}

#[test]
fn test_open_file() {
    let target = "image.png".to_string();

    let runner = Runner::from_system_runner();
    let decision =
        handle_path_request(&runner, &target, vec![], 26214400, true, "/tmp").unwrap();
    let envelope = match decision {
        Dispatch::Respond(s) => s,
        Dispatch::Execute(_, _) => panic!("dry run must not execute"),
    };

    let res = decode_reply(true, "200 OK", &envelope).unwrap();

    assert!(res.contains("Would save") && res.contains(&target));
}

#[test]
fn dry_run_url_linux_opener() {
    let runner = Runner::new(Opener::XdgOpen);
    let target = OpenTarget::Url(UrlTarget {
        target: "http://localhost:1234".to_string(),
    });
    let s = runner.dry_run(&target).unwrap();
    assert_eq!(s, "Would run: xdg-open http://localhost:1234");
    assert!(s.contains("Would run:") && s.contains("http://localhost:1234"));
}

#[test]
fn dry_run_url_macos_opener() {
    let runner = Runner::new(Opener::Open);
    let target = OpenTarget::Url(UrlTarget {
        target: "http://localhost:1234".to_string(),
    });
    let s = runner.dry_run(&target).unwrap();
    assert_eq!(s, "Would run: open http://localhost:1234");
    assert!(s.contains("open") && s.contains("http://localhost:1234"));
}

#[test]
fn dry_run_url_windows_opener() {
    let runner = Runner::new(Opener::Start);
    let target = OpenTarget::Url(UrlTarget {
        target: "http://localhost:1234".to_string(),
    });
    let s = runner.dry_run(&target).unwrap();
    assert_eq!(s, "Would run: cmd /c start http://localhost:1234");
    assert!(s.contains("cmd") && s.contains("start") && s.contains("http://localhost:1234"));
}

#[test]
fn dry_run_path_names_file_and_save() {
    let runner = Runner::new(Opener::XdgOpen);
    let target = OpenTarget::Path(PathTarget {
        filename: "image.png".to_string(),
        content: vec![],
    });
    let s = runner.dry_run(&target).unwrap();
    assert_eq!(
        s,
        "Would save: open-here/image.png; Would run: xdg-open open-here/image.png"
    );
    assert!(s.contains("image.png") && s.contains("Would save") && s.contains("Would run:"));
}

#[test]
fn dry_run_is_idempotent() {
    let runner = Runner::new(Opener::XdgOpen);
    let target = OpenTarget::Path(PathTarget {
        filename: "notes/today.txt".to_string(),
        content: vec![1, 2, 3],
    });
    let first = runner.dry_run(&target).unwrap();
    let second = runner.dry_run(&target).unwrap();
    assert_eq!(first, second);
}

#[test]
fn parse_rejects_unknown_target() {
    let r = OpenTarget::new("no-such-file-xyz", FileProbe::Missing);
    match r {
        Err(open_here::Error::UnknownTarget(s)) => assert_eq!(s, "no-such-file-xyz"),
        _ => panic!("expected UnknownTarget"),
    }
}

#[test]
fn parse_url_keeps_string_verbatim() {
    for input in ["http://localhost:1234", "https://example.org/a?b=c"] {
        let r = OpenTarget::new(input, FileProbe::Missing);
        match r {
            Ok(OpenTarget::Url(u)) => assert_eq!(u.target, input),
            _ => panic!("expected Url"),
        }
    }
}

#[test]
fn parse_existing_file_becomes_path() {
    let r = OpenTarget::new("notes.txt", FileProbe::Found(vec![7, 8, 9]));
    match r {
        Ok(OpenTarget::Path(p)) => {
            assert_eq!(p.filename, "notes.txt");
            assert_eq!(p.content, vec![7, 8, 9]);
        }
        _ => panic!("expected Path"),
    }
}

#[test]
fn parse_unreadable_file_is_file_error() {
    let r = OpenTarget::new("locked.bin", FileProbe::Unreadable("permission denied".to_string()));
    match r {
        Err(open_here::Error::File(m)) => assert_eq!(m, "permission denied"),
        _ => panic!("expected File error"),
    }
}

#[test]
fn url_prefix_wins_over_probe() {
    let r = OpenTarget::new("http://x", FileProbe::Found(vec![1]));
    assert!(matches!(r, Ok(OpenTarget::Url(_))));
}
