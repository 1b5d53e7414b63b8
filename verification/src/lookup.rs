//! Carrying out a lookup plan: which probe is tried next, and what the plan finds.
use vstd::prelude::*;
use crate::commands::texts;
use crate::paths::{join_path, joined, PathStyle};
use crate::text::{opt_view, text};
use crate::launcher::{backend_probes, tool_binary_probes, ToolSearch};
use crate::text::trim;
use crate::tools::{
    answer, mac_dirs, probe_answer, probes_view, tool_probes, Platform, Probe, ProbeFacts, ProbeView,
    ToolPlan,
};

verus! {

/// Where a lookup stands.
#[derive(Debug)]
pub enum LookupStep {
    /// Carry out the probe at this index and add what was observed to the answers.
    Ask(usize),
    /// The lookup is over: the path found, nothing, or the error that ended it.
    Done(Result<Option<String>, String>),
}

pub enum LookupStepView {
    Ask(nat),
    Done(Result<Option<Seq<char>>, Seq<char>>),
}

impl View for LookupStep {
    type V = LookupStepView;

    open spec fn view(&self) -> LookupStepView {
        match self {
            LookupStep::Ask(i) => LookupStepView::Ask(*i as nat),
            LookupStep::Done(Ok(f)) => LookupStepView::Done(Ok(opt_view(*f))),
            LookupStep::Done(Err(e)) => LookupStepView::Done(Err(e@)),
        }
    }
}

/// The error with which a probe's observation ends the lookup: a required resource
/// directory that could not be located.
pub open spec fn probe_error(p: ProbeView, facts: ProbeFacts) -> Option<Seq<char>> {
    match (p, facts) {
        (ProbeView::Resource { required, .. }, ProbeFacts::ResourceDirMissing(e)) => if required {
            Some(e@)
        } else {
            None
        },
        _ => None,
    }
}

/// Whether the `i`-th observation neither ends the lookup nor answers it.
pub open spec fn passes(probes: Seq<ProbeView>, answers: Seq<ProbeFacts>, i: int) -> bool {
    probe_error(probes[i], answers[i]) is None && probe_answer(probes[i], answers[i]) is None
}

/// The lookup from the `i`-th observation on.
pub open spec fn lookup_from(probes: Seq<ProbeView>, answers: Seq<ProbeFacts>, i: nat) -> LookupStepView
    decreases answers.len() - i,
{
    if i >= answers.len() {
        if i < probes.len() {
            LookupStepView::Ask(i)
        } else {
            LookupStepView::Done(Ok(None))
        }
    } else {
        match probe_error(probes[i as int], answers[i as int]) {
            Some(e) => LookupStepView::Done(Err(e)),
            None => match probe_answer(probes[i as int], answers[i as int]) {
                Some(p) => LookupStepView::Done(Ok(Some(p))),
                None => lookup_from(probes, answers, i + 1),
            },
        }
    }
}

/// A lookup after the observations `answers` of the first probes, in order: the
/// first probe that answers wins; a required resource directory that cannot be
/// located ends it with that error; otherwise the next probe is asked, and when
/// every probe has passed nothing was found.
pub open spec fn lookup_outcome(probes: Seq<ProbeView>, answers: Seq<ProbeFacts>) -> LookupStepView {
    lookup_from(probes, answers, 0)
}

/// The next step of a lookup through `probes`, given what was observed for the
/// probes asked so far.
pub fn next_lookup(probes: &Vec<Probe>, answers: &Vec<ProbeFacts>) -> (s: LookupStep)
    requires
        answers@.len() <= probes@.len(),
    ensures
        s@ == lookup_outcome(probes_view(probes@), answers@),
{
    let ghost pv = probes_view(probes@);
    let n = answers.len();
    let mut i: usize = 0;
    while i < n
        invariant
            n == answers@.len(),
            n <= probes@.len(),
            pv == probes_view(probes@),
            i <= n,
            lookup_outcome(pv, answers@) == lookup_from(pv, answers@, i as nat),
        decreases n - i,
    {
        assert(pv[i as int] == probes@[i as int]@);
        if let ProbeFacts::ResourceDirMissing(e) = &answers[i] {
            if let Probe::Resource { required: true, .. } = &probes[i] {
                return LookupStep::Done(Err(e.clone()));
            }
        }
        match answer(&probes[i], &answers[i]) {
            Some(p) => {
                return LookupStep::Done(Ok(Some(p)));
            },
            None => {},
        }
        i = i + 1;
    }
    if n < probes.len() {
        LookupStep::Ask(n)
    } else {
        LookupStep::Done(Ok(None))
    }
}

/// Where a program lookup stands.
#[derive(Debug)]
pub enum ToolStep {
    /// Carry out the probe at this index and add what was observed to the answers.
    Ask(usize),
    /// The program to run: the path found, or the plan's fallback name.
    Done(String),
}

pub enum ToolStepView {
    Ask(nat),
    Done(Seq<char>),
}

impl View for ToolStep {
    type V = ToolStepView;

    open spec fn view(&self) -> ToolStepView {
        match self {
            ToolStep::Ask(i) => ToolStepView::Ask(*i as nat),
            ToolStep::Done(p) => ToolStepView::Done(p@),
        }
    }
}

/// A program lookup: the path the plan's probes find, else the fallback name.
pub open spec fn tool_outcome(
    probes: Seq<ProbeView>,
    fallback: Seq<char>,
    answers: Seq<ProbeFacts>,
) -> ToolStepView {
    match lookup_outcome(probes, answers) {
        LookupStepView::Ask(i) => ToolStepView::Ask(i),
        LookupStepView::Done(Ok(Some(p))) => ToolStepView::Done(p),
        LookupStepView::Done(_) => ToolStepView::Done(fallback),
    }
}

/// The next step of a program lookup by `plan`.
pub fn next_tool_step(plan: &ToolPlan, answers: &Vec<ProbeFacts>) -> (s: ToolStep)
    requires
        answers@.len() <= plan.probes@.len(),
    ensures
        s@ == tool_outcome(probes_view(plan.probes@), plan.fallback@, answers@),
{
    match next_lookup(&plan.probes, answers) {
        LookupStep::Ask(i) => ToolStep::Ask(i),
        LookupStep::Done(Ok(Some(p))) => ToolStep::Done(p),
        LookupStep::Done(_) => ToolStep::Done(plan.fallback.clone()),
    }
}

/// `base` with each of `parts` joined on in turn.
pub open spec fn joined_all(base: Seq<char>, parts: Seq<Seq<char>>, style: PathStyle) -> Seq<char>
    decreases parts.len(),
{
    if parts.len() == 0 {
        base
    } else {
        joined(joined_all(base, parts.drop_last(), style), parts.last(), style)
    }
}

/// The candidates of an install-directory probe, one per entry of its base
/// directory, in the order the entries were listed: the entry's path with the
/// probe's relative parts joined on, found when something exists there.
pub open spec fn install_dir_probes(
    entries: Seq<Seq<char>>,
    relative: Seq<Seq<char>>,
    style: PathStyle,
) -> Seq<ProbeView> {
    entries.map_values(|e: Seq<char>| ProbeView::Exists(joined_all(e, relative, style)))
}

fn join_all(base: &str, parts: &Vec<String>, style: PathStyle) -> (r: String)
    ensures
        r@ == joined_all(base@, texts(parts@), style),
{
    let mut r = text(base);
    let n = parts.len();
    for i in 0..n
        invariant
            n == parts@.len(),
            r@ == joined_all(base@, texts(parts@).take(i as int), style),
    {
        let ghost prev = r@;
        r = join_path(r.as_str(), parts[i].as_str(), style);
        assert(texts(parts@).take(i + 1).drop_last() =~= texts(parts@).take(i as int));
    }
    assert(texts(parts@).take(n as int) =~= texts(parts@));
    r
}

/// The probes that an install-directory probe stands for, given the paths of the
/// entries of its base directory.
pub fn install_dir_candidates(entries: &Vec<String>, relative: &Vec<String>, style: PathStyle) -> (
    probes: Vec<Probe>)
    ensures
        probes_view(probes@) == install_dir_probes(texts(entries@), texts(relative@), style),
{
    let mut probes: Vec<Probe> = Vec::new();
    let n = entries.len();
    for i in 0..n
        invariant
            n == entries@.len(),
            probes_view(probes@) =~= install_dir_probes(
                texts(entries@).take(i as int),
                texts(relative@),
                style,
            ),
    {
        let ghost prev = probes@;
        probes.push(Probe::Exists(join_all(entries[i].as_str(), relative, style)));
        assert(texts(entries@).take(i + 1) =~= texts(entries@).take(i as int).push(entries@[i as int]@));
        assert(probes_view(probes@) =~= probes_view(prev).push(
            ProbeView::Exists(joined_all(entries@[i as int]@, texts(relative@), style)),
        ));
    }
    assert(texts(entries@).take(n as int) =~= texts(entries@));
    probes
}

proof fn lemma_lookup_reaches(probes: Seq<ProbeView>, answers: Seq<ProbeFacts>, i: nat, k: nat)
    requires
        i <= k <= answers.len(),
        forall|j: int| i <= j < k ==> passes(probes, answers, j),
    ensures
        lookup_from(probes, answers, i) == lookup_from(probes, answers, k),
    decreases k - i,
{
    if i < k {
        assert(passes(probes, answers, i as int));
        lemma_lookup_reaches(probes, answers, i + 1, k);
    }
}

/// The first probe that answers wins: when the probes before the `k`-th all passed
/// and the `k`-th answers `p`, the lookup is over with `p`, whatever was observed
/// after it.
pub proof fn first_answer_wins(
    probes: Seq<ProbeView>,
    answers: Seq<ProbeFacts>,
    k: nat,
    p: Seq<char>,
)
    requires
        k < answers.len() <= probes.len(),
        forall|j: int| 0 <= j < k ==> passes(probes, answers, j),
        probe_error(probes[k as int], answers[k as int]) is None,
        probe_answer(probes[k as int], answers[k as int]) == Some(p),
    ensures
        lookup_outcome(probes, answers) == LookupStepView::Done(Ok(Some(p))),
        lookup_outcome(probes, answers.take((k + 1) as int)) == LookupStepView::Done(Ok(Some(p))),
{
    lemma_lookup_reaches(probes, answers, 0, k);
    let short = answers.take((k + 1) as int);
    assert forall|j: int| 0 <= j < k implies passes(probes, short, j) by {
        assert(passes(probes, answers, j));
        assert(short[j] == answers[j]);
    }
    lemma_lookup_reaches(probes, short, 0, k);
    assert(short[k as int] == answers[k as int]);
}

/// A required resource directory that cannot be located ends the lookup with its
/// error when every probe before it passed.
pub proof fn missing_resource_dir_ends_lookup(
    probes: Seq<ProbeView>,
    answers: Seq<ProbeFacts>,
    k: nat,
    e: String,
)
    requires
        k < answers.len() <= probes.len(),
        forall|j: int| 0 <= j < k ==> passes(probes, answers, j),
        probes[k as int] matches ProbeView::Resource { required, .. } && required,
        answers[k as int] == ProbeFacts::ResourceDirMissing(e),
    ensures
        lookup_outcome(probes, answers) == LookupStepView::Done(Err(e@)),
{
    lemma_lookup_reaches(probes, answers, 0, k);
}

/// While every observed probe passed, the lookup asks the next probe, and once all
/// have passed it has found nothing.
pub proof fn passed_probes_lead_on(probes: Seq<ProbeView>, answers: Seq<ProbeFacts>)
    requires
        answers.len() <= probes.len(),
        forall|j: int| 0 <= j < answers.len() ==> passes(probes, answers, j),
    ensures
        lookup_outcome(probes, answers) == (if answers.len() < probes.len() {
            LookupStepView::Ask(answers.len())
        } else {
            LookupStepView::Done(Ok(None))
        }),
{
    lemma_lookup_reaches(probes, answers, 0, answers.len());
}

/// A program lookup that finds nothing runs the program by its bare name.
pub proof fn tool_lookup_falls_back_to_name(
    probes: Seq<ProbeView>,
    fallback: Seq<char>,
    answers: Seq<ProbeFacts>,
)
    requires
        answers.len() == probes.len(),
        forall|j: int| 0 <= j < answers.len() ==> passes(probes, answers, j),
    ensures
        tool_outcome(probes, fallback, answers) == ToolStepView::Done(fallback),
{
    passed_probes_lead_on(probes, answers);
}

/// On macOS a program is run from the first of the usual install directories that
/// holds it, before the `PATH` is asked.
pub proof fn mac_tool_first_install_dir_wins(name: Seq<char>, answers: Seq<ProbeFacts>, k: nat)
    requires
        k < 5,
        k < answers.len() <= tool_probes(name, Platform::MacOs).len(),
        forall|j: int| 0 <= j < k ==> answers[j] == ProbeFacts::Present(false),
        answers[k as int] == ProbeFacts::Present(true),
    ensures
        tool_outcome(tool_probes(name, Platform::MacOs), name, answers) == ToolStepView::Done(
            mac_dirs()[k as int] + "/"@ + name,
        ),
{
    let probes = tool_probes(name, Platform::MacOs);
    assert(probes[k as int] == ProbeView::Exists(mac_dirs()[k as int] + "/"@ + name));
    assert forall|j: int| 0 <= j < k implies passes(probes, answers, j) by {
        assert(probes[j] == ProbeView::Exists(mac_dirs()[j] + "/"@ + name));
    }
    first_answer_wins(probes, answers, k, mac_dirs()[k as int] + "/"@ + name);
}

/// A tool handed to the service is the value of its environment variable whenever
/// that is set and not blank, whatever the other probes would find.
pub proof fn service_tool_variable_wins(
    s: ToolSearch,
    platform: Platform,
    answers: Seq<ProbeFacts>,
    v: String,
)
    requires
        1 <= answers.len() <= tool_binary_probes(s, platform).len(),
        answers[0] == ProbeFacts::Var(Some(v)),
        trim(v@).len() > 0,
    ensures
        lookup_outcome(tool_binary_probes(s, platform), answers) == LookupStepView::Done(
            Ok(Some(v@)),
        ),
{
    first_answer_wins(tool_binary_probes(s, platform), answers, 0, v@);
}

/// A tool's search goes on past an unset or blank variable to the bundled copy, and
/// past a resource directory that cannot be located to the install paths.
pub proof fn service_tool_search_goes_on(
    s: ToolSearch,
    platform: Platform,
    first: ProbeFacts,
    e: String,
)
    requires
        first == ProbeFacts::Var(None) || (first matches ProbeFacts::Var(Some(v)) && trim(v@).len()
            == 0),
    ensures
        lookup_outcome(tool_binary_probes(s, platform), seq![first]) == LookupStepView::Ask(1),
        lookup_outcome(tool_binary_probes(s, platform), seq![first, ProbeFacts::ResourceDirMissing(e)])
            == LookupStepView::Ask(2),
{
    let probes = tool_binary_probes(s, platform);
    assert(probes.len() >= 3);
    passed_probes_lead_on(probes, seq![first]);
    passed_probes_lead_on(probes, seq![first, ProbeFacts::ResourceDirMissing(e)]);
}

/// The service binary is the value of `PDFTOOL_BACKEND_PATH` whenever that is set,
/// blank or not, with no check that anything exists there.
pub proof fn backend_variable_wins(
    platform: Platform,
    manifest_dir: Seq<char>,
    answers: Seq<ProbeFacts>,
    v: String,
)
    requires
        1 <= answers.len() <= backend_probes(platform, manifest_dir).len(),
        answers[0] == ProbeFacts::Var(Some(v)),
    ensures
        lookup_outcome(backend_probes(platform, manifest_dir), answers) == LookupStepView::Done(
            Ok(Some(v@)),
        ),
{
    first_answer_wins(backend_probes(platform, manifest_dir), answers, 0, v@);
}

/// With `PDFTOOL_BACKEND_PATH` unset, the bundled copy comes next: a resource
/// directory that cannot be located ends the search with its error, and a bundled
/// copy that is found is the service binary.
pub proof fn backend_bundled_copy_next(
    platform: Platform,
    manifest_dir: Seq<char>,
    e: String,
    found: String,
)
    ensures
        lookup_outcome(backend_probes(platform, manifest_dir), seq![ProbeFacts::Var(None)])
            == LookupStepView::Ask(1),
        lookup_outcome(
            backend_probes(platform, manifest_dir),
            seq![ProbeFacts::Var(None), ProbeFacts::ResourceDirMissing(e)],
        ) == LookupStepView::Done(Err(e@)),
        lookup_outcome(
            backend_probes(platform, manifest_dir),
            seq![ProbeFacts::Var(None), ProbeFacts::Found(Some(found))],
        ) == LookupStepView::Done(Ok(Some(found@))),
{
    let probes = backend_probes(platform, manifest_dir);
    assert(probes.len() >= 4);
    passed_probes_lead_on(probes, seq![ProbeFacts::Var(None)]);
    let a = seq![ProbeFacts::Var(None), ProbeFacts::ResourceDirMissing(e)];
    assert(passes(probes, a, 0));
    missing_resource_dir_ends_lookup(probes, a, 1, e);
    let b = seq![ProbeFacts::Var(None), ProbeFacts::Found(Some(found))];
    assert(passes(probes, b, 0));
    first_answer_wins(probes, b, 1, found@);
}

/// On Windows, when `where gswin64c` does not answer (it could not run, failed, or
/// printed nothing), Ghostscript is run from the first install directory in which
/// it is found, before the qpdf directories are looked at.
pub proof fn windows_gs_install_dir_wins(first: ProbeFacts, found: String)
    requires
        first matches ProbeFacts::Output(o) && (o is None || (o matches Some((ok, _)) && !ok)),
    ensures
        tool_outcome(
            tool_probes("gswin64c"@, Platform::Windows),
            "gswin64c"@,
            seq![first, ProbeFacts::Found(Some(found))],
        ) == ToolStepView::Done(found@),
{
    let probes = tool_probes("gswin64c"@, Platform::Windows);
    let answers = seq![first, ProbeFacts::Found(Some(found))];
    assert(probes.len() == 4);
    assert(probes[0] is Which);
    assert(probes[1] is InstallDirs);
    assert(passes(probes, answers, 0));
    first_answer_wins(probes, answers, 1, found@);
}

} // verus!
