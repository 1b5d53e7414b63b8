use pdftool::commands::Tool;
use pdftool::launcher::{
    health_request, health_response_ok, name_matches, sanitize_path_string, stale_backend_pids,
    BackendLauncher,
};
use pdftool::lookup::{install_dir_candidates, next_lookup, next_tool_step, LookupStep, ToolStep};
use pdftool::paths::PathStyle;
use pdftool::tools::{answer, get_tool_path, gs_cmd, qpdf_cmd, tool_plan, Platform, Probe, ProbeFacts};

fn describe(p: &Probe) -> String {
    match p {
        Probe::EnvVar { name, skip_blank } => format!("env {name} {skip_blank}"),
        Probe::Exists(path) => format!("exists {path}"),
        Probe::Which { command, name, first_line } => format!("which {command} {name} {first_line}"),
        Probe::InstallDirs { base, relative } => format!("dirs {base} {}", relative.join("|")),
        Probe::Resource { names, required } => format!("resource {} {required}", names.join("|")),
        Probe::TreeSearch { root, names, depth } => format!("tree {root} {} {depth}", names.join("|")),
    }
}

fn describe_all(v: &[Probe]) -> Vec<String> {
    v.iter().map(describe).collect()
}

#[test]
fn tool_lookup_on_macos() {
    let plan = get_tool_path("qpdf", Platform::MacOs);
    assert_eq!(
        describe_all(&plan.probes),
        vec![
            "exists /opt/homebrew/bin/qpdf",
            "exists /usr/local/bin/qpdf",
            "exists /usr/bin/qpdf",
            "exists /bin/qpdf",
            "exists /opt/local/bin/qpdf",
            "which which qpdf false",
        ]
    );
    assert_eq!(plan.fallback, "qpdf");
    assert_eq!(gs_cmd(Platform::MacOs).fallback, "gs");
}

#[test]
fn tool_lookup_on_windows() {
    let plan = gs_cmd(Platform::Windows);
    assert_eq!(
        describe_all(&plan.probes),
        vec![
            "which where gswin64c false",
            "dirs C:\\Program Files\\gs bin|gswin64c.exe",
            "exists C:\\Program Files\\qpdf\\bin\\gswin64c.exe",
            "exists C:\\Program Files (x86)\\qpdf\\bin\\gswin64c.exe",
        ]
    );
    let plan = qpdf_cmd(Platform::Windows);
    assert_eq!(
        describe_all(&plan.probes),
        vec![
            "which where qpdf false",
            "exists C:\\Program Files\\qpdf\\bin\\qpdf.exe",
            "exists C:\\Program Files (x86)\\qpdf\\bin\\qpdf.exe",
        ]
    );
}

#[test]
fn tool_lookup_elsewhere() {
    let plan = tool_plan(Tool::Ghostscript, Platform::Other);
    assert_eq!(describe_all(&plan.probes), vec!["which which gs false"]);
    assert_eq!(plan.fallback, "gs");
    assert_eq!(tool_plan(Tool::Qpdf, Platform::Other).fallback, "qpdf");
}

#[test]
fn probe_answers() {
    let which = Probe::Which { command: "which".into(), name: "gs".into(), first_line: false };
    assert_eq!(answer(&which, &ProbeFacts::Output(Some((true, "/usr/bin/gs\n".into())))), Some("/usr/bin/gs".into()));
    assert_eq!(answer(&which, &ProbeFacts::Output(Some((true, "a\nb\n".into())))), Some("a\nb".into()));
    assert_eq!(answer(&which, &ProbeFacts::Output(Some((false, "/usr/bin/gs".into())))), None);
    assert_eq!(answer(&which, &ProbeFacts::Output(Some((true, "  \n".into())))), None);
    assert_eq!(answer(&which, &ProbeFacts::Output(None)), None);
    let where_first = Probe::Which { command: "where".into(), name: "qpdf".into(), first_line: true };
    assert_eq!(
        answer(&where_first, &ProbeFacts::Output(Some((true, "C:\\a\\qpdf.exe\r\nC:\\b\\qpdf.exe\r\n".into())))),
        Some("C:\\a\\qpdf.exe".into())
    );
    let exists = Probe::Exists("/x".into());
    assert_eq!(answer(&exists, &ProbeFacts::Present(true)), Some("/x".into()));
    assert_eq!(answer(&exists, &ProbeFacts::Present(false)), None);
    let env = Probe::EnvVar { name: "V".into(), skip_blank: true };
    assert_eq!(answer(&env, &ProbeFacts::Var(Some("  ".into()))), None);
    assert_eq!(answer(&env, &ProbeFacts::Var(Some(" /q ".into()))), Some(" /q ".into()));
    assert_eq!(answer(&env, &ProbeFacts::Var(None)), None);
    let env_any = Probe::EnvVar { name: "V".into(), skip_blank: false };
    assert_eq!(answer(&env_any, &ProbeFacts::Var(Some("".into()))), Some("".into()));
    let tree = Probe::TreeSearch { root: "/r".into(), names: vec![], depth: 6 };
    assert_eq!(answer(&tree, &ProbeFacts::Found(Some("/r/a".into()))), Some("/r/a".into()));
    assert_eq!(answer(&tree, &ProbeFacts::Present(true)), None);
}

#[test]
fn backend_binary_search_order() {
    let l = BackendLauncher::new(47832);
    let s = l.backend_binary_path(Platform::MacOs, "/src/app");
    assert_eq!(
        describe_all(&s.probes),
        vec![
            "env PDFTOOL_BACKEND_PATH false",
            "resource pdfsvc true",
            "exists /src/app/../../../backend/go-service/bin/pdfsvc",
            "exists ../../backend/go-service/bin/pdfsvc",
            "exists ../../../backend/go-service/bin/pdfsvc",
        ]
    );
    assert_eq!(s.not_found, "backend binary not found; set PDFTOOL_BACKEND_PATH or build backend/go-service/bin/pdfsvc");
    let s = l.backend_binary_path(Platform::Windows, "C:\\src");
    assert_eq!(
        describe_all(&s.probes),
        vec![
            "env PDFTOOL_BACKEND_PATH false",
            "resource pdfsvc.exe|pdfsvc true",
            "exists ..\\..\\backend\\go-service\\bin\\pdfsvc.exe",
            "exists ..\\..\\..\\backend\\go-service\\bin\\pdfsvc.exe",
        ]
    );
}

#[test]
fn resource_search_order() {
    let l = BackendLauncher::new(1);
    let probes = l.find_resource_binary("/res", &vec!["qpdf.exe".to_string(), "qpdf".to_string()], PathStyle::Unix);
    assert_eq!(
        describe_all(&probes),
        vec![
            "exists /res/qpdf.exe",
            "exists /res/bin/qpdf.exe",
            "exists /res/qpdf",
            "exists /res/bin/qpdf",
            "tree /res qpdf.exe|qpdf 7",
        ]
    );
}

#[test]
fn service_tool_search_order() {
    let l = BackendLauncher::new(1);
    assert_eq!(
        describe_all(&l.resolve_qpdf_binary(Platform::Windows)),
        vec![
            "env PDFTOOL_QPDF_PATH true",
            "resource qpdf.exe|qpdf false",
            "exists C:\\Program Files\\qpdf\\bin\\qpdf.exe",
            "which where qpdf true",
        ]
    );
    assert_eq!(
        describe_all(&l.resolve_ghostscript_binary(Platform::Windows)),
        vec!["env PDFTOOL_GS_PATH true", "resource gswin64c.exe|gs.exe|gswin64c false", "which where gswin64c true"]
    );
    assert_eq!(
        describe_all(&l.resolve_ghostscript_binary(Platform::MacOs)),
        vec![
            "env PDFTOOL_GS_PATH true",
            "resource gs false",
            "exists /opt/homebrew/bin/gs",
            "exists /usr/local/bin/gs",
            "which which gs false",
        ]
    );
    assert_eq!(
        describe_all(&l.resolve_qpdf_binary(Platform::Other)),
        vec![
            "env PDFTOOL_QPDF_PATH true",
            "resource qpdf false",
            "exists /opt/homebrew/bin/qpdf",
            "exists /usr/local/bin/qpdf",
            "which which qpdf false",
        ]
    );
}

#[test]
fn launcher_basics() {
    let l = BackendLauncher::new(47832);
    assert_eq!(l.port(), 47832);
    assert_eq!(l.address(), "127.0.0.1:47832");
    assert_eq!(l.status(true, false), "running");
    assert_eq!(l.status(false, true), "running");
    assert_eq!(l.status(false, false), "stopped");
    assert_eq!(l.lsof_arguments(), vec!["-Fpc", "-nP", "-iTCP:47832", "-sTCP:LISTEN"]);
    assert_eq!(health_request(), "GET /v1/health HTTP/1.1\r\nHost: 127.0.0.1\r\nConnection: close\r\n\r\n");
}

#[test]
fn health_responses() {
    assert!(health_response_ok(b"HTTP/1.1 200 OK\r\n"));
    assert!(!health_response_ok(b"HTTP/1.1 500 Internal\r\n"));
    assert!(!health_response_ok(b""));
    assert!(!health_response_ok(b"HTTP/1.1 2000"));
    assert!(health_response_ok(b"\xff\xfe 200 "));
}

#[test]
fn stale_listeners() {
    let out = "p123\ncpdfsvc\np456\ncnode\np789\r\nc  /opt/pdfsvc-x  \n";
    assert_eq!(stale_backend_pids(out), vec!["123".to_string(), "789".to_string()]);
    assert_eq!(stale_backend_pids(""), Vec::<String>::new());
    assert_eq!(stale_backend_pids("cpdfsvc\np1\n"), Vec::<String>::new());
    assert_eq!(stale_backend_pids("p\ncpdfsvc\n"), Vec::<String>::new());
    assert_eq!(stale_backend_pids("p9\nf1\ncpdfsvc"), vec!["9".to_string()]);
}

#[test]
fn resource_names_ignore_ascii_case() {
    let names = vec!["qpdf.exe".to_string(), "qpdf".to_string()];
    assert!(name_matches(&names, "QPDF.EXE"));
    assert!(name_matches(&names, "qpdf"));
    assert!(!name_matches(&names, "qpdf.ex"));
    assert!(!name_matches(&[].to_vec(), "qpdf"));
}

#[test]
fn tool_paths_are_cleaned() {
    assert_eq!(sanitize_path_string("\\C:\\Users\\x\\qpdf.exe"), Some("C:\\Users\\x\\qpdf.exe".to_string()));
    assert_eq!(sanitize_path_string("/C:\\Users\\x\\qpdf.exe"), Some("C:\\Users\\x\\qpdf.exe".to_string()));
    assert_eq!(sanitize_path_string("  \"C:\\a b\\gs.exe\"\r\n"), Some("C:\\a b\\gs.exe".to_string()));
    assert_eq!(sanitize_path_string("'/usr/bin/qpdf'"), Some("/usr/bin/qpdf".to_string()));
    assert_eq!(sanitize_path_string("/usr/bin/qpdf"), Some("/usr/bin/qpdf".to_string()));
    assert_eq!(sanitize_path_string("a\0b\nc"), Some("abc".to_string()));
    assert_eq!(sanitize_path_string("   "), None);
    assert_eq!(sanitize_path_string("\"\""), None);
    assert_eq!(sanitize_path_string("C:\\*.exe"), None);
    assert_eq!(sanitize_path_string("what?"), None);
    assert_eq!(sanitize_path_string("\\1:\\x"), Some("\\1:\\x".to_string()));
}

fn run_lookup(probes: &Vec<Probe>, mut observe: impl FnMut(usize, &Probe) -> ProbeFacts) -> (Result<Option<String>, String>, Vec<usize>) {
    let mut answers = Vec::new();
    let mut asked = Vec::new();
    loop {
        match next_lookup(probes, &answers) {
            LookupStep::Ask(i) => {
                assert_eq!(i, answers.len());
                asked.push(i);
                answers.push(observe(i, &probes[i]));
            }
            LookupStep::Done(r) => return (r, asked),
        }
    }
}

#[test]
fn lookup_first_answer_wins() {
    let probes = vec![
        Probe::EnvVar { name: "V".into(), skip_blank: true },
        Probe::Exists("/a".into()),
        Probe::Exists("/b".into()),
        Probe::Exists("/c".into()),
    ];
    let (r, asked) = run_lookup(&probes, |i, _| match i {
        0 => ProbeFacts::Var(Some("  ".into())),
        1 => ProbeFacts::Present(false),
        _ => ProbeFacts::Present(true),
    });
    assert_eq!(r, Ok(Some("/b".to_string())));
    assert_eq!(asked, vec![0, 1, 2]);
    let (r, asked) = run_lookup(&probes, |_, _| ProbeFacts::Var(Some("/env/qpdf".into())));
    assert_eq!(r, Ok(Some("/env/qpdf".to_string())));
    assert_eq!(asked, vec![0]);
    let (r, asked) = run_lookup(&probes, |i, _| if i == 0 { ProbeFacts::Var(None) } else { ProbeFacts::Present(false) });
    assert_eq!(r, Ok(None));
    assert_eq!(asked, vec![0, 1, 2, 3]);
    assert!(matches!(next_lookup(&vec![], &vec![]), LookupStep::Done(Ok(None))));
}

#[test]
fn lookup_resource_dir_errors() {
    let l = BackendLauncher::new(1);
    let s = l.backend_binary_path(Platform::Other, "/src");
    let (r, asked) = run_lookup(&s.probes, |i, _| match i {
        0 => ProbeFacts::Var(None),
        _ => ProbeFacts::ResourceDirMissing("no resource dir".into()),
    });
    assert_eq!(r, Err("no resource dir".to_string()));
    assert_eq!(asked, vec![0, 1]);
    let (r, _) = run_lookup(&s.probes, |i, _| match i {
        0 => ProbeFacts::Var(None),
        1 => ProbeFacts::Found(Some("/res/pdfsvc".into())),
        _ => ProbeFacts::Present(true),
    });
    assert_eq!(r, Ok(Some("/res/pdfsvc".to_string())));
    let (r, asked) = run_lookup(&s.probes, |i, _| match i {
        0 => ProbeFacts::Var(None),
        1 => ProbeFacts::Found(None),
        2 => ProbeFacts::Present(false),
        _ => ProbeFacts::Present(true),
    });
    assert_eq!(r, Ok(Some("../../backend/go-service/bin/pdfsvc".to_string())));
    assert_eq!(asked, vec![0, 1, 2, 3]);
    let (r, _) = run_lookup(&s.probes, |_, _| ProbeFacts::Var(Some("".into())));
    assert_eq!(r, Ok(Some(String::new())));
    let tool = l.resolve_qpdf_binary(Platform::MacOs);
    let (r, asked) = run_lookup(&tool, |i, _| match i {
        0 => ProbeFacts::Var(Some(" ".into())),
        1 => ProbeFacts::ResourceDirMissing("no resource dir".into()),
        2 => ProbeFacts::Present(false),
        3 => ProbeFacts::Present(true),
        _ => ProbeFacts::Output(None),
    });
    assert_eq!(r, Ok(Some("/usr/local/bin/qpdf".to_string())));
    assert_eq!(asked, vec![0, 1, 2, 3]);
    let (r, _) = run_lookup(&tool, |i, _| match i {
        0 => ProbeFacts::Var(Some(" \"/opt/qpdf/bin/qpdf\"\r\n".into())),
        _ => ProbeFacts::Present(true),
    });
    assert_eq!(r, Ok(Some(" \"/opt/qpdf/bin/qpdf\"\r\n".to_string())));
    assert_eq!(sanitize_path_string(" \"/opt/qpdf/bin/qpdf\"\r\n"), Some("/opt/qpdf/bin/qpdf".to_string()));
    let (r, _) = run_lookup(&tool, |i, _| match i {
        0 => ProbeFacts::Var(None),
        1 => ProbeFacts::Found(None),
        2 | 3 => ProbeFacts::Present(false),
        _ => ProbeFacts::Output(Some((true, "/usr/bin/qpdf\n".into()))),
    });
    assert_eq!(r, Ok(Some("/usr/bin/qpdf".to_string())));
}

#[test]
fn tool_lookup_falls_back_to_its_name() {
    let plan = get_tool_path("qpdf", Platform::MacOs);
    let mut answers = Vec::new();
    let chosen = loop {
        match next_tool_step(&plan, &answers) {
            ToolStep::Ask(i) => answers.push(match &plan.probes[i] {
                Probe::Which { .. } => ProbeFacts::Output(Some((false, String::new()))),
                _ => ProbeFacts::Present(false),
            }),
            ToolStep::Done(p) => break p,
        }
    };
    assert_eq!(chosen, "qpdf");
    assert_eq!(answers.len(), 6);
    let answers = vec![ProbeFacts::Present(false), ProbeFacts::Present(true)];
    assert_eq!(
        match next_tool_step(&plan, &answers) {
            ToolStep::Done(p) => p,
            ToolStep::Ask(_) => String::new(),
        },
        "/usr/local/bin/qpdf"
    );
    let answers = vec![ProbeFacts::Present(false)];
    assert!(matches!(next_tool_step(&plan, &answers), ToolStep::Ask(1)));
}

#[test]
fn install_dirs_become_candidates() {
    let entries = vec!["C:\\Program Files\\gs\\gs10.01".to_string(), "C:\\Program Files\\gs\\gs9".to_string()];
    let relative = vec!["bin".to_string(), "gswin64c.exe".to_string()];
    let probes = install_dir_candidates(&entries, &relative, PathStyle::Windows);
    assert_eq!(
        describe_all(&probes),
        vec![
            "exists C:\\Program Files\\gs\\gs10.01\\bin\\gswin64c.exe",
            "exists C:\\Program Files\\gs\\gs9\\bin\\gswin64c.exe",
        ]
    );
    assert!(install_dir_candidates(&vec![], &relative, PathStyle::Windows).is_empty());
    let (r, _) = run_lookup(&probes, |i, _| ProbeFacts::Present(i == 1));
    assert_eq!(r, Ok(Some("C:\\Program Files\\gs\\gs9\\bin\\gswin64c.exe".to_string())));
}
