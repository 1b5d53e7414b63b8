//! The health report of the external programs.
use vstd::prelude::*;
use crate::text::opt_view;

verus! {

/// How one program answered `--version`.
#[derive(Debug)]
pub struct ToolStatus {
    pub ok: bool,
    pub path: String,
    pub version: String,
    pub error: Option<String>,
}

/// Both programs' status, and `ok` or `degraded` overall.
#[derive(Debug)]
pub struct HealthStatus {
    pub status: String,
    pub qpdf: ToolStatus,
    pub ghostscript: ToolStatus,
}

/// What running `<program> --version` gave: its exit success and error output, or
/// the error that kept it from running (as text).
#[derive(Debug)]
pub enum VersionCheck {
    Exited { success: bool, stderr: String },
    NotRun(String),
}

/// The status of the program at `path`: usable when `--version` exited successfully;
/// otherwise the error output or launch error. The version is reported as `system`.
pub fn tool_status(path: String, check: VersionCheck) -> (s: ToolStatus)
    ensures
        s.path@ == path@,
        s.version@ == "system"@,
        s.ok == (check matches VersionCheck::Exited { success: true, .. }),
        opt_view(s.error) == (match check {
            VersionCheck::Exited { success, stderr } => if success {
                None
            } else {
                Some(stderr@)
            },
            VersionCheck::NotRun(e) => Some(e@),
        }),
{
    let version = String::from_str("system");
    match check {
        VersionCheck::Exited { success, stderr } => {
            let error = if success {
                None
            } else {
                Some(stderr)
            };
            ToolStatus { ok: success, path, version, error }
        },
        VersionCheck::NotRun(e) => ToolStatus { ok: false, path, version, error: Some(e) },
    }
}

/// The overall report: `ok` when both programs are usable, `degraded` otherwise.
pub fn health_status(qpdf: ToolStatus, ghostscript: ToolStatus) -> (h: HealthStatus)
    ensures
        h.status@ == (if qpdf.ok && ghostscript.ok {
            "ok"@
        } else {
            "degraded"@
        }),
        h.qpdf == qpdf,
        h.ghostscript == ghostscript,
{
    let status = if qpdf.ok && ghostscript.ok {
        String::from_str("ok")
    } else {
        String::from_str("degraded")
    };
    HealthStatus { status, qpdf, ghostscript }
}

} // verus!
