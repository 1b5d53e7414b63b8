//! Where to look for the external programs, and how each lookup answers.
use vstd::prelude::*;
use crate::commands::{texts, Tool};
use crate::text::{
    chars_of, first_line, first_line_chars, opt_view, string_of, text, trim, trim_chars,
};

verus! {

/// The operating system the tool runs on.
#[derive(Clone, Copy, Debug, PartialEq, Eq, Structural)]
pub enum Platform {
    MacOs,
    Windows,
    Other,
}

/// One place to look for a program.
#[derive(Debug)]
pub enum Probe {
    /// An environment variable; a blank value is skipped when `skip_blank` is set.
    EnvVar { name: String, skip_blank: bool },
    /// A file path, found when a file system entry exists there.
    Exists(String),
    /// A `which`/`where` lookup of `name` by `command`; the answer is the trimmed
    /// output (only its first line when `first_line` is set).
    Which { command: String, name: String, first_line: bool },
    /// For each entry `e` of the directory `base`, the path `e/<relative...>`.
    InstallDirs { base: String, relative: Vec<String> },
    /// The bundled copy of a program: one of `names` in the application's resource
    /// directory (see `find_resource_binary`); when `required` is set, failing to
    /// locate the resource directory is an error.
    Resource { names: Vec<String>, required: bool },
    /// The first file, depth first in listing order, in `root` or in a directory
    /// fewer than `depth` levels below it, whose name equals one of `names` up to
    /// ASCII case (see `TreeWalk`).
    TreeSearch { root: String, names: Vec<String>, depth: usize },
}

#[verifier::ext_equal]
pub enum ProbeView {
    EnvVar { name: Seq<char>, skip_blank: bool },
    Exists(Seq<char>),
    Which { command: Seq<char>, name: Seq<char>, first_line: bool },
    InstallDirs { base: Seq<char>, relative: Seq<Seq<char>> },
    Resource { names: Seq<Seq<char>>, required: bool },
    TreeSearch { root: Seq<char>, names: Seq<Seq<char>>, depth: nat },
}

impl View for Probe {
    type V = ProbeView;

    open spec fn view(&self) -> ProbeView {
        match self {
            Probe::EnvVar { name, skip_blank } => ProbeView::EnvVar { name: name@, skip_blank: *skip_blank },
            Probe::Exists(p) => ProbeView::Exists(p@),
            Probe::Which { command, name, first_line } => ProbeView::Which {
                command: command@,
                name: name@,
                first_line: *first_line,
            },
            Probe::InstallDirs { base, relative } => ProbeView::InstallDirs {
                base: base@,
                relative: texts(relative@),
            },
            Probe::Resource { names, required } => ProbeView::Resource {
                names: texts(names@),
                required: *required,
            },
            Probe::TreeSearch { root, names, depth } => ProbeView::TreeSearch {
                root: root@,
                names: texts(names@),
                depth: *depth as nat,
            },
        }
    }
}

pub open spec fn probes_view(v: Seq<Probe>) -> Seq<ProbeView> {
    v.map_values(|p: Probe| p@)
}

/// What the caller observed when it carried out a probe.
#[derive(Debug)]
pub enum ProbeFacts {
    /// The variable's value, when set and valid text.
    Var(Option<String>),
    /// Whether the path exists.
    Present(bool),
    /// The lookup's exit success and output, or nothing when it could not run.
    Output(Option<(bool, String)>),
    /// The path found by a directory walk or a nested plan, if any.
    Found(Option<String>),
    /// The application's resource directory could not be located; the error text.
    ResourceDirMissing(String),
}

/// The answer of a probe, from what the caller observed.
pub open spec fn probe_answer(p: ProbeView, facts: ProbeFacts) -> Option<Seq<char>> {
    match (p, facts) {
        (ProbeView::EnvVar { skip_blank, .. }, ProbeFacts::Var(Some(v))) => if skip_blank && trim(
            v@,
        ).len() == 0 {
            None
        } else {
            Some(v@)
        },
        (ProbeView::Exists(path), ProbeFacts::Present(b)) => if b {
            Some(path)
        } else {
            None
        },
        (ProbeView::Which { first_line: first, .. }, ProbeFacts::Output(Some((ok, out)))) => {
            let text = if first {
                trim(first_line(out@))
            } else {
                trim(out@)
            };
            if ok && text.len() > 0 {
                Some(text)
            } else {
                None
            }
        },
        (ProbeView::InstallDirs { .. }, ProbeFacts::Found(f)) => match f {
            Some(s) => Some(s@),
            None => None,
        },
        (ProbeView::Resource { .. }, ProbeFacts::Found(f)) => match f {
            Some(s) => Some(s@),
            None => None,
        },
        (ProbeView::TreeSearch { .. }, ProbeFacts::Found(f)) => match f {
            Some(s) => Some(s@),
            None => None,
        },
        _ => None,
    }
}

fn clone_found(f: &Option<String>) -> (r: Option<String>)
    ensures
        opt_view(r) == opt_view(*f),
{
    match f {
        Some(found) => Some(found.clone()),
        None => None,
    }
}

/// Interprets what the caller observed for a probe.
pub fn answer(p: &Probe, facts: &ProbeFacts) -> (r: Option<String>)
    ensures
        opt_view(r) == probe_answer(p@, *facts),
{
    match (p, facts) {
        (Probe::EnvVar { skip_blank, .. }, ProbeFacts::Var(Some(v))) => {
            let trimmed = trim_chars(&chars_of(v.as_str()));
            if *skip_blank && trimmed.len() == 0 {
                None
            } else {
                Some(v.clone())
            }
        },
        (Probe::Exists(path), ProbeFacts::Present(b)) => {
            if *b {
                Some(path.clone())
            } else {
                None
            }
        },
        (Probe::Which { first_line, .. }, ProbeFacts::Output(Some((ok, out)))) => {
            let chars = chars_of(out.as_str());
            let text = if *first_line {
                trim_chars(&first_line_chars(&chars))
            } else {
                trim_chars(&chars)
            };
            if *ok && text.len() > 0 {
                Some(string_of(&text))
            } else {
                None
            }
        },
        (Probe::InstallDirs { .. }, ProbeFacts::Found(f)) => clone_found(f),
        (Probe::Resource { .. }, ProbeFacts::Found(f)) => clone_found(f),
        (Probe::TreeSearch { .. }, ProbeFacts::Found(f)) => clone_found(f),
        _ => None,
    }
}

/// The probes to try in order; the first that answers wins, else `fallback`.
#[derive(Debug)]
pub struct ToolPlan {
    pub probes: Vec<Probe>,
    pub fallback: String,
}

/// The program name Ghostscript has on `platform`.
pub open spec fn gs_name(platform: Platform) -> Seq<char> {
    if platform == Platform::Windows {
        "gswin64c"@
    } else {
        "gs"@
    }
}

pub open spec fn mac_dirs() -> Seq<Seq<char>> {
    seq!["/opt/homebrew/bin"@, "/usr/local/bin"@, "/usr/bin"@, "/bin"@, "/opt/local/bin"@]
}

pub open spec fn windows_qpdf_dirs() -> Seq<Seq<char>> {
    seq!["C:\\Program Files\\qpdf\\bin"@, "C:\\Program Files (x86)\\qpdf\\bin"@]
}

/// Where `get_tool_path` looks for `name`: on macOS the usual install directories
/// first, then the `PATH` (`which`, or `where` on Windows); on Windows also the
/// Ghostscript install directories (for `gswin64c`) and the usual qpdf directories;
/// the bare name when nothing is found.
pub open spec fn tool_probes(name: Seq<char>, platform: Platform) -> Seq<ProbeView> {
    let mac = if platform == Platform::MacOs {
        Seq::new(5, |i: int| ProbeView::Exists(mac_dirs()[i] + "/"@ + name))
    } else {
        seq![]
    };
    let which = seq![
        ProbeView::Which {
            command: if platform == Platform::Windows { "where"@ } else { "which"@ },
            name,
            first_line: false,
        },
    ];
    let windows = if platform == Platform::Windows {
        let gs = if name == "gswin64c"@ {
            seq![
                ProbeView::InstallDirs {
                    base: "C:\\Program Files\\gs"@,
                    relative: seq!["bin"@, "gswin64c.exe"@],
                },
            ]
        } else {
            seq![]
        };
        gs + Seq::new(2, |i: int| ProbeView::Exists(windows_qpdf_dirs()[i] + "\\"@ + name + ".exe"@))
    } else {
        seq![]
    };
    mac + which + windows
}


fn path_in(dir: &str, sep: &str, name: &str, ext: &str) -> (r: String)
    ensures
        r@ == dir@ + sep@ + name@ + ext@,
{
    let mut r = String::from_str(dir);
    r.append(sep);
    r.append(name);
    r.append(ext);
    r
}

fn strings_eq(a: &str, b: &str) -> (r: bool)
    ensures
        r == (a@ == b@),
{
    let x = String::from_str(a);
    let y = String::from_str(b);
    x == y
}

/// The lookup plan for the program `name` on `platform`.
pub fn get_tool_path(name: &str, platform: Platform) -> (plan: ToolPlan)
    ensures
        probes_view(plan.probes@) == tool_probes(name@, platform),
        plan.fallback@ == name@,
{
    let mut probes: Vec<Probe> = Vec::new();
    if platform == Platform::MacOs {
        probes.push(Probe::Exists(path_in("/opt/homebrew/bin", "/", name, "")));
        probes.push(Probe::Exists(path_in("/usr/local/bin", "/", name, "")));
        probes.push(Probe::Exists(path_in("/usr/bin", "/", name, "")));
        probes.push(Probe::Exists(path_in("/bin", "/", name, "")));
        probes.push(Probe::Exists(path_in("/opt/local/bin", "/", name, "")));
        proof {
            reveal_strlit("");
        }
    }
    let command = if platform == Platform::Windows {
        text("where")
    } else {
        text("which")
    };
    probes.push(Probe::Which { command, name: text(name), first_line: false });
    if platform == Platform::Windows {
        if strings_eq(name, "gswin64c") {
            let mut relative: Vec<String> = Vec::new();
            relative.push(text("bin"));
            relative.push(text("gswin64c.exe"));
            assert(texts(relative@) =~= seq!["bin"@, "gswin64c.exe"@]);
            probes.push(Probe::InstallDirs { base: text("C:\\Program Files\\gs"), relative });
        }
        probes.push(Probe::Exists(path_in("C:\\Program Files\\qpdf\\bin", "\\", name, ".exe")));
        probes.push(Probe::Exists(path_in("C:\\Program Files (x86)\\qpdf\\bin", "\\", name, ".exe")));
    }
    proof {
        reveal_strlit("");
        assert(probes_view(probes@) =~= tool_probes(name@, platform));
    }
    ToolPlan { probes, fallback: text(name) }
}

/// The lookup plan for Ghostscript.
pub fn gs_cmd(platform: Platform) -> (plan: ToolPlan)
    ensures
        probes_view(plan.probes@) == tool_probes(gs_name(platform), platform),
        plan.fallback@ == gs_name(platform),
{
    if platform == Platform::Windows {
        get_tool_path("gswin64c", platform)
    } else {
        get_tool_path("gs", platform)
    }
}

/// The lookup plan for qpdf.
pub fn qpdf_cmd(platform: Platform) -> (plan: ToolPlan)
    ensures
        probes_view(plan.probes@) == tool_probes("qpdf"@, platform),
        plan.fallback@ == "qpdf"@,
{
    get_tool_path("qpdf", platform)
}

/// The lookup plan for the program that runs `tool`.
pub fn tool_plan(tool: Tool, platform: Platform) -> (plan: ToolPlan)
    ensures
        plan.fallback@ == (match tool {
            Tool::Qpdf => "qpdf"@,
            Tool::Ghostscript => gs_name(platform),
        }),
        probes_view(plan.probes@) == tool_probes(plan.fallback@, platform),
{
    match tool {
        Tool::Qpdf => qpdf_cmd(platform),
        Tool::Ghostscript => gs_cmd(platform),
    }
}

/// A probe that carries out a search (the install directories, the bundled copy,
/// a directory walk) answers with exactly the path the search found, and with
/// nothing when it found none.
pub proof fn found_path_is_the_answer(p: ProbeView, found: Option<String>)
    requires
        p is InstallDirs || p is Resource || p is TreeSearch,
    ensures
        probe_answer(p, ProbeFacts::Found(found)) == opt_view(found),
        probe_answer(p, ProbeFacts::Found(found)) is Some <==> found is Some,
{
}

} // verus!
