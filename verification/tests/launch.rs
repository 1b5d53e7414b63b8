use pdftool::launch::{
    ChildState, Launch, LaunchEffect, LaunchPhase, LaunchReply, LaunchRequest, LogOutcome,
    SearchOutcome,
};
use pdftool::launcher::BackendLauncher;
use pdftool::tools::Platform;

fn launch(platform: Platform) -> Launch {
    Launch::new(BackendLauncher::new(47832), platform, "/src".to_string())
}

fn step(l: &mut Launch, r: LaunchReply) -> (Vec<LaunchEffect>, LaunchRequest) {
    assert!(l.accepts(&r));
    let s = l.step(r);
    (s.effects, s.request)
}

fn finish(req: &LaunchRequest) -> Result<(), String> {
    match req {
        LaunchRequest::Finish(r) => r.clone(),
        other => panic!("expected finish, got {other:?}"),
    }
}

/// Drives a start-up through its checks to the binary search.
fn to_locate(l: &mut Launch) {
    let (_, r) = step(l, LaunchReply::Begin);
    assert!(matches!(r, LaunchRequest::PollChild));
    let (_, r) = step(l, LaunchReply::Child(ChildState::Absent));
    assert!(matches!(r, LaunchRequest::CheckHealth));
    let (_, r) = step(l, LaunchReply::Healthy(false));
    assert!(matches!(r, LaunchRequest::Locate(_)));
}

#[test]
fn running_child_is_kept() {
    let mut l = launch(Platform::Other);
    step(&mut l, LaunchReply::Begin);
    let (e, r) = step(&mut l, LaunchReply::Child(ChildState::Running));
    assert!(e.is_empty());
    assert_eq!(finish(&r), Ok(()));
    assert_eq!(l.phase(), LaunchPhase::Done);
}

#[test]
fn healthy_service_is_left_alone() {
    let mut l = launch(Platform::MacOs);
    step(&mut l, LaunchReply::Begin);
    let (e, _) = step(&mut l, LaunchReply::Child(ChildState::Exited));
    assert!(matches!(e[..], [LaunchEffect::ForgetChild]));
    let (e, r) = step(&mut l, LaunchReply::Healthy(true));
    assert!(e.is_empty());
    assert_eq!(finish(&r), Ok(()));
}

#[test]
fn stale_service_is_killed_on_macos() {
    let mut l = launch(Platform::MacOs);
    step(&mut l, LaunchReply::Begin);
    step(&mut l, LaunchReply::Child(ChildState::Absent));
    let (_, r) = step(&mut l, LaunchReply::Healthy(false));
    assert!(matches!(r, LaunchRequest::CheckPort));
    let (_, r) = step(&mut l, LaunchReply::Reachable(true));
    assert!(matches!(r, LaunchRequest::CheckHealth));
    let (_, r) = step(&mut l, LaunchReply::Healthy(false));
    match r {
        LaunchRequest::ListListeners(a) => assert_eq!(a, vec!["-Fpc", "-nP", "-iTCP:47832", "-sTCP:LISTEN"]),
        other => panic!("{other:?}"),
    }
    let (e, r) = step(&mut l, LaunchReply::Listeners(Some("p42\ncpdfsvc\np7\ncsshd\n".to_string())));
    assert!(matches!(&e[..], [LaunchEffect::Kill(p), LaunchEffect::SleepMillis(150)] if p == "42"));
    assert!(matches!(r, LaunchRequest::Locate(_)));
}

#[test]
fn failed_lsof_still_waits() {
    let mut l = launch(Platform::MacOs);
    step(&mut l, LaunchReply::Begin);
    step(&mut l, LaunchReply::Child(ChildState::Absent));
    step(&mut l, LaunchReply::Healthy(false));
    step(&mut l, LaunchReply::Reachable(true));
    step(&mut l, LaunchReply::Healthy(false));
    let (e, _) = step(&mut l, LaunchReply::Listeners(None));
    assert!(matches!(e[..], [LaunchEffect::SleepMillis(150)]));
}

#[test]
fn reachable_but_healthy_port_is_not_touched() {
    let mut l = launch(Platform::MacOs);
    step(&mut l, LaunchReply::Begin);
    step(&mut l, LaunchReply::Child(ChildState::Absent));
    step(&mut l, LaunchReply::Healthy(false));
    step(&mut l, LaunchReply::Reachable(true));
    let (e, r) = step(&mut l, LaunchReply::Healthy(true));
    assert!(e.is_empty());
    assert!(matches!(r, LaunchRequest::Locate(_)));
    let mut l = launch(Platform::MacOs);
    step(&mut l, LaunchReply::Begin);
    step(&mut l, LaunchReply::Child(ChildState::Absent));
    step(&mut l, LaunchReply::Healthy(false));
    let (_, r) = step(&mut l, LaunchReply::Reachable(false));
    assert!(matches!(r, LaunchRequest::Locate(_)));
}

#[test]
fn binary_search_failures() {
    let mut l = launch(Platform::Other);
    to_locate(&mut l);
    let (_, r) = step(&mut l, LaunchReply::Located(SearchOutcome::NotFound));
    assert_eq!(finish(&r), Err("backend binary not found; set PDFTOOL_BACKEND_PATH or build backend/go-service/bin/pdfsvc".to_string()));
    let mut l = launch(Platform::Other);
    to_locate(&mut l);
    let (_, r) = step(&mut l, LaunchReply::Located(SearchOutcome::ResourceDirError("no resources".into())));
    assert_eq!(finish(&r), Err("no resources".to_string()));
    let mut l = launch(Platform::Other);
    to_locate(&mut l);
    let (_, r) = step(&mut l, LaunchReply::Located(SearchOutcome::Found("/b/pdfsvc".into())));
    assert!(matches!(&r, LaunchRequest::CheckBinary(p) if p == "/b/pdfsvc"));
    let (_, r) = step(&mut l, LaunchReply::BinaryExists(false));
    assert_eq!(
        finish(&r),
        Err("backend binary missing at /b/pdfsvc. Build it with: cd backend/go-service && make build".to_string())
    );
}

fn to_log(l: &mut Launch) {
    to_locate(l);
    step(l, LaunchReply::Located(SearchOutcome::Found("/b/pdfsvc".into())));
    let (_, r) = step(l, LaunchReply::BinaryExists(true));
    assert!(matches!(&r, LaunchRequest::OpenLog(n) if n == "pdftool-backend.log"));
}

#[test]
fn log_failures() {
    let mut l = launch(Platform::Other);
    to_log(&mut l);
    let (_, r) = step(&mut l, LaunchReply::LogOpened(LogOutcome::OpenFailed { log: "/tmp/l".into(), error: "denied".into() }));
    assert_eq!(finish(&r), Err("failed to open backend log file /tmp/l: denied".to_string()));
    let mut l = launch(Platform::Other);
    to_log(&mut l);
    let (_, r) = step(&mut l, LaunchReply::LogOpened(LogOutcome::CloneFailed { error: "busy".into() }));
    assert_eq!(finish(&r), Err("failed to clone backend log file handle: busy".to_string()));
}

fn to_spawn(l: &mut Launch, qpdf: Option<&str>, gs: Option<&str>) -> LaunchRequest {
    to_log(l);
    let (_, r) = step(l, LaunchReply::LogOpened(LogOutcome::Opened { log: "/tmp/pdftool-backend.log".into() }));
    assert!(matches!(r, LaunchRequest::ResolveTools { .. }));
    let (_, r) = step(
        l,
        LaunchReply::ToolsResolved { qpdf: qpdf.map(|s| s.to_string()), gs: gs.map(|s| s.to_string()) },
    );
    r
}

#[test]
fn spawn_arguments_and_environment() {
    let mut l = launch(Platform::Windows);
    let r = to_spawn(&mut l, Some("\\C:\\q\\qpdf.exe\r"), Some("C:\\gs\\gswin64c.exe"));
    match r {
        LaunchRequest::Spawn { program, args, env } => {
            assert_eq!(program, "/b/pdfsvc");
            assert_eq!(args, vec!["--port", "47832", "--qpdf", "C:\\q\\qpdf.exe", "--gs", "C:\\gs\\gswin64c.exe"]);
            assert_eq!(
                env,
                vec![
                    ("PDFTOOL_QPDF_PATH".to_string(), "C:\\q\\qpdf.exe".to_string()),
                    ("PDFTOOL_GS_PATH".to_string(), "C:\\gs\\gswin64c.exe".to_string()),
                ]
            );
        }
        other => panic!("{other:?}"),
    }
    let mut l = launch(Platform::Other);
    match to_spawn(&mut l, None, Some("what?")) {
        LaunchRequest::Spawn { args, env, .. } => {
            assert_eq!(args, vec!["--port", "47832"]);
            assert!(env.is_empty());
        }
        other => panic!("{other:?}"),
    }
}

#[test]
fn spawn_outcomes() {
    let mut l = launch(Platform::Other);
    to_spawn(&mut l, None, None);
    let (_, r) = step(&mut l, LaunchReply::Spawned(Err("permission denied".into())));
    assert_eq!(finish(&r), Err("failed to launch backend: permission denied".to_string()));

    let mut l = launch(Platform::Other);
    to_spawn(&mut l, None, None);
    let (e, r) = step(&mut l, LaunchReply::Spawned(Ok(())));
    assert!(matches!(e[..], [LaunchEffect::SleepMillis(220)]));
    assert!(matches!(r, LaunchRequest::Settle));
    let (_, r) = step(&mut l, LaunchReply::Settled(Some("exit status: 1".into())));
    assert_eq!(
        finish(&r),
        Err("backend exited immediately with status exit status: 1. Check log: /tmp/pdftool-backend.log".to_string())
    );

    let mut l = launch(Platform::Other);
    to_spawn(&mut l, None, None);
    step(&mut l, LaunchReply::Spawned(Ok(())));
    let (e, r) = step(&mut l, LaunchReply::Settled(None));
    assert!(matches!(e[..], [LaunchEffect::KeepChild]));
    assert_eq!(finish(&r), Ok(()));
    assert!(!l.accepts(&LaunchReply::Begin));
}
