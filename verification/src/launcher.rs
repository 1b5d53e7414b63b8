//! Starting the local PDF service: where its binary and tools are, how a running one
//! is recognised, and the start-up sequence as a state machine.
use vstd::prelude::*;
use crate::commands::texts;
use crate::paths::{join_path, joined, PathStyle};
use crate::text::{
    chars_of, contains_bytes, contains_chars, decimal, eq_ignore_ascii_case,
    eq_ignoring_ascii_case, has_infix, lines, push_decimal, split_lines, string_of, trim,
    opt_view, text, trim_chars, trim_matches, trim_matches_chars,
};
use crate::tools::{probes_view, Platform, Probe, ProbeView};

verus! {

/// Starts and watches the PDF service on a local port.
#[derive(Clone, Copy, Debug)]
pub struct BackendLauncher {
    port: u16,
}

impl BackendLauncher {
    pub closed spec fn port_spec(&self) -> u16 {
        self.port
    }

    /// A launcher for the service on `port`.
    pub fn new(port: u16) -> (l: Self)
        ensures
            l.port_spec() == port,
    {
        Self { port }
    }

    /// The service's port.
    pub fn port(&self) -> (p: u16)
        ensures
            p == self.port_spec(),
    {
        self.port
    }

    /// `running` when a child process is held or the service answers its health
    /// check, `stopped` otherwise.
    pub fn status(&self, has_child: bool, healthy: bool) -> (s: String)
        ensures
            s@ == (if has_child || healthy {
                "running"@
            } else {
                "stopped"@
            }),
    {
        if has_child || healthy {
            String::from_str("running")
        } else {
            String::from_str("stopped")
        }
    }

    /// The service's socket address, `127.0.0.1:<port>`.
    pub fn address(&self) -> (a: String)
        ensures
            a@ == "127.0.0.1:"@ + decimal(self.port_spec() as nat),
    {
        let mut a = String::from_str("127.0.0.1:");
        push_decimal(&mut a, self.port as usize);
        a
    }

    /// The `lsof` arguments that list the processes listening on the port.
    pub fn lsof_arguments(&self) -> (args: Vec<String>)
        ensures
            texts(args@) == lsof_args(self.port_spec()),
    {
        let mut args: Vec<String> = Vec::new();
        args.push(String::from_str("-Fpc"));
        args.push(String::from_str("-nP"));
        let mut port_arg = String::from_str("-iTCP:");
        push_decimal(&mut port_arg, self.port as usize);
        args.push(port_arg);
        args.push(String::from_str("-sTCP:LISTEN"));
        assert(texts(args@) =~= lsof_args(self.port_spec()));
        args
    }

    /// Where to look for the service binary: `PDFTOOL_BACKEND_PATH` (any value), the
    /// bundled copy, then the development build locations.
    pub fn backend_binary_path(&self, platform: Platform, manifest_dir: &str) -> (s:
        BackendSearch)
        ensures
            probes_view(s.probes@) == backend_probes(platform, manifest_dir@),
            s.not_found@ == backend_not_found(),
    {
        let mut probes: Vec<Probe> = Vec::new();
        probes.push(Probe::EnvVar { name: text("PDFTOOL_BACKEND_PATH"), skip_blank: false });
        let mut names: Vec<String> = Vec::new();
        if platform == Platform::Windows {
            names.push(text("pdfsvc.exe"));
        }
        names.push(text("pdfsvc"));
        assert(texts(names@) =~= (if platform == Platform::Windows {
            seq!["pdfsvc.exe"@, "pdfsvc"@]
        } else {
            seq!["pdfsvc"@]
        }));
        probes.push(Probe::Resource { names, required: true });
        if platform == Platform::Windows {
            probes.push(Probe::Exists(text("..\\..\\backend\\go-service\\bin\\pdfsvc.exe")));
            probes.push(Probe::Exists(text("..\\..\\..\\backend\\go-service\\bin\\pdfsvc.exe")));
        } else {
            probes.push(
                Probe::Exists(
                    join_path(manifest_dir, "../../../backend/go-service/bin/pdfsvc", PathStyle::Unix),
                ),
            );
            probes.push(Probe::Exists(text("../../backend/go-service/bin/pdfsvc")));
            probes.push(Probe::Exists(text("../../../backend/go-service/bin/pdfsvc")));
        }
        proof {
            assert(probes_view(probes@) =~= backend_probes(platform, manifest_dir@));
        }
        BackendSearch {
            probes,
            not_found: text(
                "backend binary not found; set PDFTOOL_BACKEND_PATH or build backend/go-service/bin/pdfsvc",
            ),
        }
    }

    /// Where to look for a bundled binary named one of `names`: each name directly in
    /// `resource_dir`, then in its `bin`, then anywhere in the tree below it, from the
    /// resource directory itself down to six directory levels below it.
    pub fn find_resource_binary(&self, resource_dir: &str, names: &Vec<String>, style: PathStyle) -> (
        probes: Vec<Probe>)
        ensures
            probes_view(probes@) == resource_probes(resource_dir@, texts(names@), style),
    {
        let mut probes: Vec<Probe> = Vec::new();
        let bin = join_path(resource_dir, "bin", style);
        let n = names.len();
        for i in 0..n
            invariant
                n == names@.len(),
                bin@ == joined(resource_dir@, "bin"@, style),
                probes_view(probes@) =~= resource_direct_probes(
                    resource_dir@,
                    texts(names@).take(i as int),
                    style,
                ),
        {
            let ghost prev = probes@;
            probes.push(Probe::Exists(join_path(resource_dir, names[i].as_str(), style)));
            probes.push(Probe::Exists(join_path(bin.as_str(), names[i].as_str(), style)));
            proof {
                let ns = texts(names@);
                assert(ns.take(i + 1).drop_last() =~= ns.take(i as int));
                assert(probes_view(probes@) =~= probes_view(prev) + seq![
                    ProbeView::Exists(joined(resource_dir@, ns[i as int], style)),
                    ProbeView::Exists(joined(joined(resource_dir@, "bin"@, style), ns[i as int], style)),
                ]);
            }
        }
        let mut all: Vec<String> = Vec::new();
        for i in 0..n
            invariant
                n == names@.len(),
                texts(all@) =~= texts(names@.take(i as int)),
        {
            let ghost prev = all@;
            all.push(names[i].clone());
            assert(texts(all@) =~= texts(prev).push(names@[i as int]@));
            assert(texts(names@.take(i + 1)) =~= texts(names@.take(i as int)).push(names@[i as int]@));
        }
        assert(names@.take(n as int) =~= names@);
        assert(texts(names@).take(n as int) =~= texts(names@));
        probes.push(Probe::TreeSearch { root: text(resource_dir), names: all, depth: 7 });
        probes
    }

    /// Where to look for qpdf to hand to the service.
    pub fn resolve_qpdf_binary(&self, platform: Platform) -> (probes: Vec<Probe>)
        ensures
            probes_view(probes@) == tool_binary_probes(qpdf_search(platform), platform),
    {
        let mut candidates: Vec<String> = Vec::new();
        let mut bundled: Vec<String> = Vec::new();
        if platform == Platform::Windows {
            candidates.push(text("C:\\Program Files\\qpdf\\bin\\qpdf.exe"));
            bundled.push(text("qpdf.exe"));
            bundled.push(text("qpdf"));
        } else {
            candidates.push(text("/opt/homebrew/bin/qpdf"));
            candidates.push(text("/usr/local/bin/qpdf"));
            bundled.push(text("qpdf"));
        }
        assert(texts(candidates@) =~= qpdf_search(platform).candidates);
        assert(texts(bundled@) =~= qpdf_search(platform).bundled);
        resolve_tool_binary("PDFTOOL_QPDF_PATH", "qpdf", candidates, bundled, platform)
    }

    /// Where to look for Ghostscript to hand to the service.
    pub fn resolve_ghostscript_binary(&self, platform: Platform) -> (probes: Vec<Probe>)
        ensures
            probes_view(probes@) == tool_binary_probes(gs_search(platform), platform),
    {
        let mut candidates: Vec<String> = Vec::new();
        let mut bundled: Vec<String> = Vec::new();
        if platform == Platform::Windows {
            bundled.push(text("gswin64c.exe"));
            bundled.push(text("gs.exe"));
            bundled.push(text("gswin64c"));
            assert(texts(candidates@) =~= gs_search(platform).candidates);
            assert(texts(bundled@) =~= gs_search(platform).bundled);
            resolve_tool_binary("PDFTOOL_GS_PATH", "gswin64c", candidates, bundled, platform)
        } else {
            candidates.push(text("/opt/homebrew/bin/gs"));
            candidates.push(text("/usr/local/bin/gs"));
            bundled.push(text("gs"));
            assert(texts(candidates@) =~= gs_search(platform).candidates);
            assert(texts(bundled@) =~= gs_search(platform).bundled);
            resolve_tool_binary("PDFTOOL_GS_PATH", "gs", candidates, bundled, platform)
        }
    }
}


pub open spec fn lsof_args(port: u16) -> Seq<Seq<char>> {
    seq!["-Fpc"@, "-nP"@, "-iTCP:"@ + decimal(port as nat), "-sTCP:LISTEN"@]
}

/// A search for the service binary, and the error when nothing is found.
#[derive(Debug)]
pub struct BackendSearch {
    pub probes: Vec<Probe>,
    pub not_found: String,
}

pub open spec fn backend_not_found() -> Seq<char> {
    "backend binary not found; set PDFTOOL_BACKEND_PATH or build backend/go-service/bin/pdfsvc"@
}

pub open spec fn backend_probes(platform: Platform, manifest_dir: Seq<char>) -> Seq<ProbeView> {
    let names = if platform == Platform::Windows {
        seq!["pdfsvc.exe"@, "pdfsvc"@]
    } else {
        seq!["pdfsvc"@]
    };
    let head = seq![
        ProbeView::EnvVar { name: "PDFTOOL_BACKEND_PATH"@, skip_blank: false },
        ProbeView::Resource { names, required: true },
    ];
    if platform == Platform::Windows {
        head + seq![
            ProbeView::Exists("..\\..\\backend\\go-service\\bin\\pdfsvc.exe"@),
            ProbeView::Exists("..\\..\\..\\backend\\go-service\\bin\\pdfsvc.exe"@),
        ]
    } else {
        head + seq![
            ProbeView::Exists(
                joined(manifest_dir, "../../../backend/go-service/bin/pdfsvc"@, PathStyle::Unix),
            ),
            ProbeView::Exists("../../backend/go-service/bin/pdfsvc"@),
            ProbeView::Exists("../../../backend/go-service/bin/pdfsvc"@),
        ]
    }
}

pub open spec fn resource_direct_probes(dir: Seq<char>, names: Seq<Seq<char>>, style: PathStyle) -> Seq<
    ProbeView,
>
    decreases names.len(),
{
    if names.len() == 0 {
        seq![]
    } else {
        resource_direct_probes(dir, names.drop_last(), style) + seq![
            ProbeView::Exists(joined(dir, names.last(), style)),
            ProbeView::Exists(joined(joined(dir, "bin"@, style), names.last(), style)),
        ]
    }
}

pub open spec fn resource_probes(dir: Seq<char>, names: Seq<Seq<char>>, style: PathStyle) -> Seq<
    ProbeView,
> {
    resource_direct_probes(dir, names, style) + seq![
        ProbeView::TreeSearch { root: dir, names, depth: 7 },
    ]
}

/// How the service's copy of a tool is found.
pub struct ToolSearch {
    pub var_name: Seq<char>,
    pub fallback_name: Seq<char>,
    pub candidates: Seq<Seq<char>>,
    pub bundled: Seq<Seq<char>>,
}

pub open spec fn qpdf_search(platform: Platform) -> ToolSearch {
    if platform == Platform::Windows {
        ToolSearch {
            var_name: "PDFTOOL_QPDF_PATH"@,
            fallback_name: "qpdf"@,
            candidates: seq!["C:\\Program Files\\qpdf\\bin\\qpdf.exe"@],
            bundled: seq!["qpdf.exe"@, "qpdf"@],
        }
    } else {
        ToolSearch {
            var_name: "PDFTOOL_QPDF_PATH"@,
            fallback_name: "qpdf"@,
            candidates: seq!["/opt/homebrew/bin/qpdf"@, "/usr/local/bin/qpdf"@],
            bundled: seq!["qpdf"@],
        }
    }
}

pub open spec fn gs_search(platform: Platform) -> ToolSearch {
    if platform == Platform::Windows {
        ToolSearch {
            var_name: "PDFTOOL_GS_PATH"@,
            fallback_name: "gswin64c"@,
            candidates: seq![],
            bundled: seq!["gswin64c.exe"@, "gs.exe"@, "gswin64c"@],
        }
    } else {
        ToolSearch {
            var_name: "PDFTOOL_GS_PATH"@,
            fallback_name: "gs"@,
            candidates: seq!["/opt/homebrew/bin/gs"@, "/usr/local/bin/gs"@],
            bundled: seq!["gs"@],
        }
    }
}

/// The order in which a tool for the service is looked for: a non-blank environment
/// variable, the bundled copy, the usual install paths, then the `PATH` (`where`,
/// first line only, on Windows; `which` elsewhere).
pub open spec fn tool_binary_probes(s: ToolSearch, platform: Platform) -> Seq<ProbeView> {
    seq![
        ProbeView::EnvVar { name: s.var_name, skip_blank: true },
        ProbeView::Resource { names: s.bundled, required: false },
    ] + s.candidates.map_values(|c: Seq<char>| ProbeView::Exists(c)) + seq![
        ProbeView::Which {
            command: if platform == Platform::Windows { "where"@ } else { "which"@ },
            name: s.fallback_name,
            first_line: platform == Platform::Windows,
        },
    ]
}

fn resolve_tool_binary(
    var_name: &str,
    fallback_name: &str,
    candidates: Vec<String>,
    bundled: Vec<String>,
    platform: Platform,
) -> (probes: Vec<Probe>)
    ensures
        probes_view(probes@) == tool_binary_probes(
            ToolSearch {
                var_name: var_name@,
                fallback_name: fallback_name@,
                candidates: texts(candidates@),
                bundled: texts(bundled@),
            },
            platform,
        ),
{
    let ghost cands = candidates@;
    let mut probes: Vec<Probe> = Vec::new();
    probes.push(Probe::EnvVar { name: text(var_name), skip_blank: true });
    probes.push(Probe::Resource { names: bundled, required: false });
    let n = candidates.len();
    let mut rest = candidates;
    let mut i: usize = 0;
    while rest.len() > 0
        invariant
            n == cands.len(),
            i + rest@.len() == n,
            rest@ =~= cands.subrange(i as int, n as int),
            probes@.len() == 2 + i,
            forall|k: int| 0 <= k < i ==> #[trigger] probes_view(probes@)[2 + k] == ProbeView::Exists(cands[k]@),
            probes_view(probes@)[0] == (ProbeView::EnvVar { name: var_name@, skip_blank: true }),
            probes_view(probes@)[1] == (ProbeView::Resource { names: texts(bundled@), required: false }),
        decreases rest@.len(),
    {
        let c = rest.remove(0);
        assert(c == cands[i as int]);
        let ghost prev = probes@;
        probes.push(Probe::Exists(c));
        i = i + 1;
        assert forall|k: int| 0 <= k < i implies #[trigger] probes_view(probes@)[2 + k]
            == ProbeView::Exists(cands[k]@) by {
            if k < i - 1 {
                assert(probes@[2 + k] == prev[2 + k]);
                assert(probes_view(prev)[2 + k] == ProbeView::Exists(cands[k]@));
            } else {
                assert(probes@[2 + k] == Probe::Exists(cands[k]));
            }
        }
    }
    let command = if platform == Platform::Windows {
        text("where")
    } else {
        text("which")
    };
    let ghost before = probes@;
    assert(i == n);
    probes.push(
        Probe::Which {
            command,
            name: text(fallback_name),
            first_line: platform == Platform::Windows,
        },
    );
    assert(cands.take(n as int) =~= cands);
    let ghost expected = tool_binary_probes(
        ToolSearch {
            var_name: var_name@,
            fallback_name: fallback_name@,
            candidates: texts(cands),
            bundled: texts(bundled@),
        },
        platform,
    );
    assert(expected.len() == probes@.len());
    assert forall|k: int| 0 <= k < expected.len() implies #[trigger] probes_view(probes@)[k]
        == expected[k] by {
        if 2 <= k < 2 + n {
            assert(probes@[k] == before[k]);
            assert(probes_view(before)[2 + (k - 2)] == ProbeView::Exists(cands[k - 2]@));
        }
    }
    assert(probes_view(probes@) =~= tool_binary_probes(
        ToolSearch {
            var_name: var_name@,
            fallback_name: fallback_name@,
            candidates: texts(cands),
            bundled: texts(bundled@),
        },
        platform,
    ));
    probes
}

/// Whether `file_name` equals one of `names`, ignoring ASCII case.
pub fn name_matches(names: &Vec<String>, file_name: &str) -> (b: bool)
    ensures
        b == exists|i: int|
            0 <= i < names@.len() && eq_ignore_ascii_case(#[trigger] names@[i]@, file_name@),
{
    let target = chars_of(file_name);
    let n = names.len();
    for i in 0..n
        invariant
            n == names@.len(),
            target@ == file_name@,
            forall|j: int| 0 <= j < i ==> !eq_ignore_ascii_case(#[trigger] names@[j]@, file_name@),
    {
        let candidate = chars_of(names[i].as_str());
        if eq_ignoring_ascii_case(&candidate, &target) {
            return true;
        }
    }
    false
}

pub open spec fn is_line_control(c: char) -> bool {
    c == '\0' || c == '\r' || c == '\n'
}

/// `s` without NUL, carriage return and line feed characters.
pub open spec fn without_line_controls(s: Seq<char>) -> Seq<char>
    decreases s.len(),
{
    if s.len() == 0 {
        s
    } else if is_line_control(s.last()) {
        without_line_controls(s.drop_last())
    } else {
        without_line_controls(s.drop_last()).push(s.last())
    }
}

pub open spec fn is_slash(c: char) -> bool {
    c == '\\' || c == '/'
}

pub open spec fn is_ascii_letter(c: char) -> bool {
    ('a' <= c && c <= 'z') || ('A' <= c && c <= 'Z')
}

/// A drive path written with a stray leading slash, such as `\C:\x` or `/C:/x`.
pub open spec fn has_stray_drive_slash(s: Seq<char>) -> bool {
    s.len() >= 4 && is_slash(s[0]) && is_ascii_letter(s[1]) && s[2] == ':' && is_slash(s[3])
}

/// A tool path as handed to the service: surrounding white space and quotes
/// removed, NUL/CR/LF dropped, a stray slash before a drive letter removed; nothing
/// when the result is empty or holds a wildcard (`*` or `?`).
pub open spec fn sanitized_path(raw: Seq<char>) -> Option<Seq<char>> {
    let quoted = trim_matches(trim_matches(trim(raw), '"'), '\'');
    let kept = without_line_controls(quoted);
    let fixed = if has_stray_drive_slash(kept) {
        kept.drop_first()
    } else {
        kept
    };
    if fixed.len() == 0 || fixed.contains('*') || fixed.contains('?') {
        None
    } else {
        Some(fixed)
    }
}

/// Cleans a tool path before it is handed to the service (see `sanitized_path`).
pub fn sanitize_path_string(raw: &str) -> (r: Option<String>)
    ensures
        opt_view(r) == sanitized_path(raw@),
{
    let trimmed = trim_chars(&chars_of(raw));
    let unquoted = trim_matches_chars(&trim_matches_chars(&trimmed, '"'), '\'');
    let mut kept: Vec<char> = Vec::new();
    let n = unquoted.len();
    for i in 0..n
        invariant
            n == unquoted@.len(),
            kept@ == without_line_controls(unquoted@.take(i as int)),
    {
        let c = unquoted[i];
        assert(unquoted@.take(i + 1).drop_last() =~= unquoted@.take(i as int));
        if !(c == '\0' || c == '\r' || c == '\n') {
            kept.push(c);
        }
    }
    assert(unquoted@.take(n as int) =~= unquoted@);
    let fix = kept.len() >= 4 && (kept[0] == '\\' || kept[0] == '/') && (('a' <= kept[1] && kept[1]
        <= 'z') || ('A' <= kept[1] && kept[1] <= 'Z')) && kept[2] == ':' && (kept[3] == '\\'
        || kept[3] == '/');
    if fix {
        kept.remove(0);
    }
    let ghost fixed = kept@;
    let mut wildcard = false;
    let m = kept.len();
    for i in 0..m
        invariant
            m == kept@.len(),
            wildcard == exists|j: int| 0 <= j < i && (kept@[j] == '*' || kept@[j] == '?'),
    {
        if kept[i] == '*' || kept[i] == '?' {
            wildcard = true;
        }
    }
    proof {
        if kept@.contains('*') {
            let j = choose|j: int| 0 <= j < kept@.len() && kept@[j] == '*';
            assert(kept@[j] == '*');
        }
        if kept@.contains('?') {
            let j = choose|j: int| 0 <= j < kept@.len() && kept@[j] == '?';
            assert(kept@[j] == '?');
        }
    }
    if m == 0 || wildcard {
        None
    } else {
        Some(string_of(&kept))
    }
}

/// The request the health check sends.
pub fn health_request() -> (r: &'static str)
    ensures
        r@ == "GET /v1/health HTTP/1.1\r\nHost: 127.0.0.1\r\nConnection: close\r\n\r\n"@,
{
    "GET /v1/health HTTP/1.1\r\nHost: 127.0.0.1\r\nConnection: close\r\n\r\n"
}

/// The bytes of ` 200 `.
pub open spec fn status_200() -> Seq<u8> {
    seq![32u8, 50u8, 48u8, 48u8, 32u8]
}

/// Whether the start of a health-check response (as read, at most 512 bytes) says
/// `200`: it is not empty and holds ` 200 `. (In the response text, with invalid
/// UTF-8 replaced, ` 200 ` occurs exactly when its bytes occur in the raw bytes.)
pub fn health_response_ok(response: &[u8]) -> (b: bool)
    ensures
        b == (response@.len() > 0 && has_infix(response@, status_200())),
{
    let needle: [u8; 5] = [32u8, 50u8, 48u8, 48u8, 32u8];
    assert(needle@ =~= status_200());
    response.len() > 0 && contains_bytes(response, needle.as_slice())
}

/// Scans `lsof -Fpc` output: a `p` line sets the process id, a `c` line its command;
/// once both are known they are reset, and the id is kept when it is not empty and
/// the command contains `pdfsvc`.
pub open spec fn lsof_scan(ls: Seq<Seq<char>>, pid: Option<Seq<char>>, cmd: Option<Seq<char>>) -> Seq<
    Seq<char>,
>
    decreases ls.len(),
{
    if ls.len() == 0 {
        seq![]
    } else {
        let line = ls[0];
        let rest = ls.drop_first();
        if line.len() > 0 && line[0] == 'p' {
            lsof_scan(rest, Some(trim(line.drop_first())), cmd)
        } else {
            let cmd2 = if line.len() > 0 && line[0] == 'c' {
                Some(trim(line.drop_first()))
            } else {
                cmd
            };
            if pid is Some && cmd2 is Some {
                let p = pid->0;
                let keep = if p.len() > 0 && has_infix(cmd2->0, "pdfsvc"@) {
                    seq![p]
                } else {
                    seq![]
                };
                keep + lsof_scan(rest, None, None)
            } else {
                lsof_scan(rest, pid, cmd2)
            }
        }
    }
}

/// The process ids of stale services in `lsof -Fpc` output.
pub open spec fn stale_pids(output: Seq<char>) -> Seq<Seq<char>> {
    lsof_scan(lines(output), None, None)
}

proof fn lemma_scan_ids_nonempty(ls: Seq<Seq<char>>, pid: Option<Seq<char>>, cmd: Option<Seq<char>>)
    ensures
        forall|i: int|
            0 <= i < lsof_scan(ls, pid, cmd).len() ==> #[trigger] lsof_scan(ls, pid, cmd)[i].len() > 0,
    decreases ls.len(),
{
    if ls.len() > 0 {
        let line = ls[0];
        let rest = ls.drop_first();
        if line.len() > 0 && line[0] == 'p' {
            lemma_scan_ids_nonempty(rest, Some(trim(line.drop_first())), cmd);
            assert(lsof_scan(ls, pid, cmd) == lsof_scan(rest, Some(trim(line.drop_first())), cmd));
        } else {
            let cmd2 = if line.len() > 0 && line[0] == 'c' {
                Some(trim(line.drop_first()))
            } else {
                cmd
            };
            if pid is Some && cmd2 is Some {
                lemma_scan_ids_nonempty(rest, None, None);
                let p = pid->0;
                let keep = if p.len() > 0 && has_infix(cmd2->0, "pdfsvc"@) {
                    seq![p]
                } else {
                    seq![]
                };
                let tail = lsof_scan(rest, None, None);
                assert(lsof_scan(ls, pid, cmd) == keep + tail);
                assert forall|i: int| 0 <= i < (keep + tail).len() implies #[trigger] (keep + tail)[i].len() > 0 by {
                    if i >= keep.len() {
                        assert((keep + tail)[i] == tail[i - keep.len()]);
                    }
                }
            } else {
                lemma_scan_ids_nonempty(rest, pid, cmd2);
                assert(lsof_scan(ls, pid, cmd) == lsof_scan(rest, pid, cmd2));
            }
        }
    }
}

/// Only non-empty process ids are ever reported as stale, so `kill -9` is never run
/// without an id.
pub proof fn stale_pids_are_nonempty(output: Seq<char>)
    ensures
        forall|i: int| 0 <= i < stale_pids(output).len() ==> #[trigger] stale_pids(output)[i].len() > 0,
{
    lemma_scan_ids_nonempty(lines(output), None, None);
}

fn chars_after_first(line: &Vec<char>) -> (r: Vec<char>)
    requires
        line@.len() > 0,
    ensures
        r@ == line@.drop_first(),
{
    let mut r: Vec<char> = Vec::new();
    let n = line.len();
    for i in 1..n
        invariant
            n == line@.len(),
            r@ == line@.subrange(1, i as int),
    {
        r.push(line[i]);
        assert(line@.subrange(1, i + 1) == line@.subrange(1, i as int).push(line@[i as int]));
    }
    r
}

/// The process ids that `lsof -Fpc` output shows listening as a stale service.
pub fn stale_backend_pids(output: &str) -> (pids: Vec<String>)
    ensures
        texts(pids@) == stale_pids(output@),
{
    let all = split_lines(&chars_of(output));
    let ghost ls = all@.map_values(|l: Vec<char>| l@);
    let marker = chars_of("pdfsvc");
    let mut pids: Vec<String> = Vec::new();
    let mut pid: Option<Vec<char>> = None;
    let mut cmd: Option<Vec<char>> = None;
    let n = all.len();
    assert(ls.skip(0) =~= ls);
    for i in 0..n
        invariant
            n == all@.len(),
            ls == all@.map_values(|l: Vec<char>| l@),
            marker@ == "pdfsvc"@,
            stale_pids(output@) == texts(pids@) + lsof_scan(
                ls.skip(i as int),
                match pid {
                    Some(p) => Some(p@),
                    None => None,
                },
                match cmd {
                    Some(c) => Some(c@),
                    None => None,
                },
            ),
    {
        let line = &all[i];
        assert(ls.skip(i as int).drop_first() =~= ls.skip(i + 1));
        assert(ls.skip(i as int)[0] == line@);
        if line.len() > 0 && line[0] == 'p' {
            pid = Some(trim_chars(&chars_after_first(line)));
        } else {
            if line.len() > 0 && line[0] == 'c' {
                cmd = Some(trim_chars(&chars_after_first(line)));
            }
            if pid.is_some() && cmd.is_some() {
                let p = pid.take().unwrap();
                let c = cmd.take().unwrap();
                if p.len() > 0 && contains_chars(&c, &marker) {
                    let ghost prev = pids@;
                    pids.push(string_of(&p));
                    assert(texts(pids@) =~= texts(prev) + seq![p@]);
                } else {
                    assert(texts(pids@) =~= texts(pids@) + Seq::<Seq<char>>::empty());
                }
            }
        }
    }
    assert(ls.skip(n as int) =~= Seq::<Seq<char>>::empty());
    assert(texts(pids@) + Seq::<Seq<char>>::empty() =~= texts(pids@));
    pids
}

} // verus!
