use pdftool::health::{health_status, tool_status, VersionCheck};
use pdftool::inspect::{inspect_file, inspect_files, FileFacts};
use pdftool::jobs::PipelineState;
use pdftool::paths::{join_path, numbered_pdf_name, scratch_dir_name_of, PathStyle};
use pdftool::text::{decimal_string, padded3_string};

#[test]
fn decimal_formatting() {
    assert_eq!(decimal_string(0), "0");
    assert_eq!(decimal_string(407), "407");
    assert_eq!(decimal_string(usize::MAX), usize::MAX.to_string());
    assert_eq!(padded3_string(7), "007");
    assert_eq!(padded3_string(42), "042");
    assert_eq!(padded3_string(999), "999");
    assert_eq!(padded3_string(1234), "1234");
}

#[test]
fn path_joining() {
    assert_eq!(join_path("/tmp", "a", PathStyle::Unix), "/tmp/a");
    assert_eq!(join_path("/tmp/", "a", PathStyle::Unix), "/tmp/a");
    assert_eq!(join_path("", "a", PathStyle::Unix), "a");
    assert_eq!(join_path("C:\\Temp", "a", PathStyle::Windows), "C:\\Temp\\a");
    assert_eq!(join_path("C:\\Temp/", "a", PathStyle::Windows), "C:\\Temp/a");
    assert_eq!(join_path("C:", "a", PathStyle::Windows), "C:a");
    assert_eq!(join_path("a\\", "b", PathStyle::Unix), "a\\/b");
    assert_eq!(scratch_dir_name_of("abc"), "pdftool-abc");
    assert_eq!(numbered_pdf_name("chunk_", 7), "chunk_007.pdf");
    assert_eq!(numbered_pdf_name("comp_", 1000), "comp_1000.pdf");
}

#[test]
fn path_joining_matches_std_on_unix_hosts() {
    for (d, n) in [("/tmp", "x"), ("/tmp/", "x"), ("rel/dir", "y.pdf"), ("", "z")] {
        let expected = std::path::Path::new(d).join(n).to_string_lossy().to_string();
        assert_eq!(join_path(d, n, PathStyle::Unix), expected);
    }
}

#[test]
fn job_table() {
    let mut s = PipelineState::new();
    s.cancel_job("x");
    assert!(!s.is_cancelled("x"));
    s.start_job("x".to_string());
    assert!(!s.is_cancelled("x"));
    s.start_job("y".to_string());
    s.cancel_job("x");
    s.cancel_job("x");
    assert!(s.is_cancelled("x"));
    assert!(!s.is_cancelled("y"));
    s.start_job("x".to_string());
    assert!(!s.is_cancelled("x"));
    s.cancel_job("x");
    s.finish_job("x");
    assert!(!s.is_cancelled("x"));
    s.cancel_job("x");
    assert!(!s.is_cancelled("x"));
    s.finish_job("nothing");
    assert!(!s.is_cancelled("y"));
}

#[test]
fn health_report() {
    let q = tool_status("/bin/qpdf".to_string(), VersionCheck::Exited { success: true, stderr: "ignored".into() });
    assert!(q.ok);
    assert_eq!(q.error, None);
    assert_eq!(q.version, "system");
    assert_eq!(q.path, "/bin/qpdf");
    let g = tool_status("gs".to_string(), VersionCheck::Exited { success: false, stderr: "bad".into() });
    assert!(!g.ok);
    assert_eq!(g.error.as_deref(), Some("bad"));
    let h = health_status(q, g);
    assert_eq!(h.status, "degraded");
    let q = tool_status("q".to_string(), VersionCheck::NotRun("not found".into()));
    assert!(!q.ok);
    assert_eq!(q.error.as_deref(), Some("not found"));
    let a = tool_status("a".to_string(), VersionCheck::Exited { success: true, stderr: String::new() });
    let b = tool_status("b".to_string(), VersionCheck::Exited { success: true, stderr: String::new() });
    assert_eq!(health_status(a, b).status, "ok");
}

#[test]
fn inspecting_files() {
    let f = inspect_file(FileFacts { path: "/d/a.pdf".into(), file_name: Some("a.pdf".into()), metadata: Ok(1234) });
    assert_eq!((f.path.as_str(), f.name.as_str(), f.exists, f.size_bytes, f.error), ("/d/a.pdf", "a.pdf", true, 1234, None));
    let all = inspect_files(vec![
        FileFacts { path: "/".into(), file_name: None, metadata: Ok(0) },
        FileFacts { path: "/d/gone.pdf".into(), file_name: Some("gone.pdf".into()), metadata: Err("No such file".into()) },
    ]);
    assert_eq!(all.len(), 2);
    assert_eq!(all[0].name, "/");
    assert!(!all[1].exists);
    assert_eq!(all[1].size_bytes, 0);
    assert_eq!(all[1].error.as_deref(), Some("No such file"));
    assert_eq!(all[1].path, "/d/gone.pdf");
}
