//! The job pipeline as a state machine: from the current phase and the reply to the
//! last request, the next phase, what to do now, and what to ask for next.
use vstd::prelude::*;
use crate::chunking::{chunk_ranges, uses_chunks};
use crate::commands::{
    assemble_args, compress_args, gs_accepted, merge_gs_args, merge_qpdf_args, page_count_args,
    page_count_of, qpdf_accepted, split_args, ExitReport, Tool, ToolRun, ToolRunView,
};
use crate::paths::{joined, numbered_pdf, scratch_dir_name, PathStyle};
use crate::presets::{preset_settings, CompressionPreset};
use crate::text::{decimal, opt_view};

verus! {

/// One input document.
#[derive(Debug)]
pub struct InputFile {
    pub path: String,
}

/// What the user asked for: merge `files` in order into `output_path`, recompressed
/// with `preset`.
#[derive(Debug)]
pub struct CreateJobRequest {
    pub files: Vec<InputFile>,
    pub output_path: String,
    pub preset: CompressionPreset,
}

/// How far a job has come: a fixed share in hundredths, or the share reached while
/// compressing chunks, `0.40 + done / total * 0.45` (see `progress_ratio`).
#[derive(Clone, Copy, Debug, PartialEq, Eq, Structural)]
pub enum Progress {
    Percent(u32),
    Chunks { done: usize, total: usize },
}

/// The share of a job that a progress report stands for, as a numerator over a
/// denominator: `p / 100`, or `(40 * total + 45 * done) / (100 * total)`, which is
/// `0.40 + done / total * 0.45`.
pub open spec fn progress_ratio(p: Progress) -> (int, int) {
    match p {
        Progress::Percent(q) => (q as int, 100),
        Progress::Chunks { done, total } => (40 * total + 45 * done, 100 * total),
    }
}

/// Whether the share `a` is at most the share `b` (both over positive denominators).
pub open spec fn ratio_le(a: (int, int), b: (int, int)) -> bool {
    a.0 * b.1 <= b.0 * a.1
}

/// The share a progress report stands for, as a numerator and a denominator; the
/// caller divides them.
pub fn progress_fraction(p: &Progress) -> (r: (u128, u128))
    ensures
        (r.0 as int, r.1 as int) == progress_ratio(*p),
{
    match p {
        Progress::Percent(q) => (*q as u128, 100),
        Progress::Chunks { done, total } => {
            let t = *total as u128;
            let d = *done as u128;
            (40 * t + 45 * d, 100 * t)
        },
    }
}

/// A progress report of a job.
#[derive(Debug)]
pub struct JobEvent {
    pub job_id: String,
    pub stage: String,
    pub progress: Progress,
    pub message: String,
    pub status: String,
    pub output: Option<String>,
}

#[verifier::ext_equal]
pub struct JobEventView {
    pub job_id: Seq<char>,
    pub stage: Seq<char>,
    pub progress: Progress,
    pub message: Seq<char>,
    pub status: Seq<char>,
    pub output: Option<Seq<char>>,
}

impl View for JobEvent {
    type V = JobEventView;

    open spec fn view(&self) -> JobEventView {
        JobEventView {
            job_id: self.job_id@,
            stage: self.stage@,
            progress: self.progress,
            message: self.message@,
            status: self.status@,
            output: opt_view(self.output),
        }
    }
}

/// Something the caller does right away, in order, ignoring failures of the file
/// system operations.
#[derive(Debug)]
pub enum Effect {
    /// Publish a progress report.
    Emit(JobEvent),
    /// Create a directory and its parents.
    CreateDir(String),
    /// Create the parent directory of a file path (and its parents).
    CreateParentDir(String),
    /// Remove a directory and everything in it.
    RemoveDir(String),
    /// Drop the job from the table of active jobs.
    FinishJob,
}

#[verifier::ext_equal]
pub enum EffectView {
    Emit(JobEventView),
    CreateDir(Seq<char>),
    CreateParentDir(Seq<char>),
    RemoveDir(Seq<char>),
    FinishJob,
}

impl View for Effect {
    type V = EffectView;

    open spec fn view(&self) -> EffectView {
        match self {
            Effect::Emit(e) => EffectView::Emit(e@),
            Effect::CreateDir(p) => EffectView::CreateDir(p@),
            Effect::CreateParentDir(p) => EffectView::CreateParentDir(p@),
            Effect::RemoveDir(p) => EffectView::RemoveDir(p@),
            Effect::FinishJob => EffectView::FinishJob,
        }
    }
}

pub open spec fn effects_view(v: Seq<Effect>) -> Seq<EffectView> {
    v.map_values(|e: Effect| e@)
}

pub open spec fn runs_view(v: Seq<ToolRun>) -> Seq<ToolRunView> {
    v.map_values(|r: ToolRun| r@)
}

/// What the caller must do next and answer with a `Reply`.
#[derive(Debug)]
pub enum Request {
    /// Answer `Reply::Cancelled` with the job's cancellation flag.
    CheckCancelled,
    /// Run one tool; answer `Reply::Ran`.
    Run(ToolRun),
    /// Copy a file; answer `Reply::Copied`.
    Copy { from: String, to: String },
    /// Run all these qpdf splits, at most `workers` at a time; answer
    /// `Reply::SplitDone` with one entry per run, in order.
    Split { runs: Vec<ToolRun>, workers: usize },
    /// Compress all chunks, at most `workers` at a time; a worker that sees the job
    /// cancelled before it starts skips its run. Each worker whose run succeeds
    /// publishes `chunk_progress_event`. Answer `Reply::ChunksDone`, in order.
    CompressChunks { runs: Vec<ToolRun>, workers: usize },
    /// The job is over.
    Stop,
}

#[verifier::ext_equal]
pub enum RequestView {
    CheckCancelled,
    Run(ToolRunView),
    Copy { from: Seq<char>, to: Seq<char> },
    Split { runs: Seq<ToolRunView>, workers: nat },
    CompressChunks { runs: Seq<ToolRunView>, workers: nat },
    Stop,
}

impl View for Request {
    type V = RequestView;

    open spec fn view(&self) -> RequestView {
        match self {
            Request::CheckCancelled => RequestView::CheckCancelled,
            Request::Run(r) => RequestView::Run(r@),
            Request::Copy { from, to } => RequestView::Copy { from: from@, to: to@ },
            Request::Split { runs, workers } => RequestView::Split {
                runs: runs_view(runs@),
                workers: *workers as nat,
            },
            Request::CompressChunks { runs, workers } => RequestView::CompressChunks {
                runs: runs_view(runs@),
                workers: *workers as nat,
            },
            Request::Stop => RequestView::Stop,
        }
    }
}

/// How one chunk's compression ended.
#[derive(Clone, Copy, Debug, PartialEq, Eq, Structural)]
pub enum ChunkOutcome {
    Compressed,
    Failed,
    /// The job was cancelled before the chunk's run started.
    Cancelled,
}

/// The caller's answer to the last request.
#[derive(Debug)]
pub enum Reply {
    /// The job was just created (the answer to no request).
    Started,
    Cancelled(bool),
    Ran(ExitReport),
    /// The copy's result; the error as text.
    Copied(Result<(), String>),
    /// Per split run, its report, or nothing when its task did not complete.
    SplitDone(Vec<Option<ExitReport>>),
    ChunksDone(Vec<ChunkOutcome>),
}

/// Where a job stands.
#[derive(Clone, Copy, Debug, PartialEq, Eq, Structural)]
pub enum Phase {
    Start,
    BeforeMerge,
    QpdfMerge,
    GsMerge,
    Copying,
    Counting,
    BeforeSingle,
    Single,
    Splitting { chunks: usize },
    BeforeChunks { chunks: usize },
    Compressing { chunks: usize },
    Assembling,
    Finished,
}

/// A job as the contracts see it: what was asked, its scratch directory, and
/// its phase.
pub struct JobMachineView {
    pub job_id: Seq<char>,
    pub files: Seq<Seq<char>>,
    pub output: Seq<char>,
    pub preset: CompressionPreset,
    pub workers: nat,
    pub style: PathStyle,
    pub temp_dir: Seq<char>,
    pub phase: Phase,
}

// ---------------------------------------------------------------------------
// The model.
// ---------------------------------------------------------------------------

pub open spec fn merged_path(m: JobMachineView) -> Seq<char> {
    joined(m.temp_dir, "merged.pdf"@, m.style)
}

pub open spec fn chunks_dir(m: JobMachineView) -> Seq<char> {
    joined(m.temp_dir, "chunks"@, m.style)
}

pub open spec fn comp_dir(m: JobMachineView) -> Seq<char> {
    joined(m.temp_dir, "comp"@, m.style)
}

pub open spec fn chunk_file(m: JobMachineView, i: nat) -> Seq<char> {
    joined(chunks_dir(m), numbered_pdf("chunk_"@, i), m.style)
}

pub open spec fn comp_file(m: JobMachineView, i: nat) -> Seq<char> {
    joined(comp_dir(m), numbered_pdf("comp_"@, i), m.style)
}

/// The compressed parts of a job split into `chunks` chunks, in chunk order: the
/// list that the final assembly joins.
pub open spec fn assembly_parts(m: JobMachineView, chunks: nat) -> Seq<Seq<char>> {
    Seq::new(chunks, |i: int| comp_file(m, i as nat))
}

pub open spec fn emit(
    m: JobMachineView,
    stage: Seq<char>,
    progress: Progress,
    message: Seq<char>,
    status: Seq<char>,
    output: Option<Seq<char>>,
) -> EffectView {
    EffectView::Emit(
        JobEventView { job_id: m.job_id, stage, progress, message, status, output },
    )
}

pub open spec fn running(m: JobMachineView, stage: Seq<char>, percent: u32, message: Seq<char>) -> EffectView {
    emit(m, stage, Progress::Percent(percent), message, "running"@, None)
}

pub open spec fn failure(m: JobMachineView, message: Seq<char>) -> EffectView {
    emit(m, "error"@, Progress::Percent(0), message, "failed"@, None)
}

pub open spec fn completion(m: JobMachineView) -> EffectView {
    emit(m, "done"@, Progress::Percent(100), "Done"@, "completed"@, Some(m.output))
}

pub open spec fn cancellation(m: JobMachineView) -> EffectView {
    emit(m, "cancel"@, Progress::Percent(100), "Job cancelled"@, "cancelled"@, None)
}

/// `m` in phase `phase`.
pub open spec fn with_phase(m: JobMachineView, phase: Phase) -> JobMachineView {
    JobMachineView { phase, ..m }
}

/// The result of one step.
#[verifier::ext_equal]
pub struct Transition {
    pub phase: Phase,
    pub effects: Seq<EffectView>,
    pub request: RequestView,
}

pub open spec fn stop(effects: Seq<EffectView>) -> Transition {
    Transition { phase: Phase::Finished, effects, request: RequestView::Stop }
}

/// A failure after the scratch directory exists: report it and remove the directory.
pub open spec fn fail_and_clean(m: JobMachineView, message: Seq<char>) -> Transition {
    stop(seq![failure(m, message), EffectView::RemoveDir(m.temp_dir)])
}

pub open spec fn cancelled_job(m: JobMachineView) -> Transition {
    stop(seq![cancellation(m), EffectView::RemoveDir(m.temp_dir)])
}

/// A job that wrote its output (or failed to): report, leave the table, clean up.
pub open spec fn finish_with(m: JobMachineView, report: EffectView) -> Transition {
    stop(seq![report, EffectView::FinishJob, EffectView::RemoveDir(m.temp_dir)])
}

pub open spec fn run(tool: Tool, args: Seq<Seq<char>>, expected: Option<Seq<char>>) -> RequestView {
    RequestView::Run(ToolRunView { tool, args, expected_output: expected })
}

pub open spec fn overwrite_message() -> Seq<char> {
    "Output path matches an input file. Choose a different output name."@
}

pub open spec fn on_start(m: JobMachineView) -> Transition {
    let init = running(m, "init"@, 5, "Starting job"@);
    if m.files.contains(m.output) {
        stop(seq![init, failure(m, overwrite_message())])
    } else {
        Transition {
            phase: Phase::BeforeMerge,
            effects: seq![
                init,
                EffectView::CreateDir(m.temp_dir),
                running(m, "merge"@, 10, "Merging files…"@),
            ],
            request: RequestView::CheckCancelled,
        }
    }
}

pub open spec fn qpdf_merge_request(m: JobMachineView) -> RequestView {
    run(Tool::Qpdf, merge_qpdf_args(m.files, merged_path(m)), Some(merged_path(m)))
}

pub open spec fn gs_merge_request(m: JobMachineView) -> RequestView {
    run(Tool::Ghostscript, merge_gs_args(m.files, merged_path(m)), Some(merged_path(m)))
}

/// After a successful merge: copy through for no compression, else count pages.
pub open spec fn merged(m: JobMachineView) -> Transition {
    let complete = running(m, "merge"@, 20, "Merge complete"@);
    if m.preset == CompressionPreset::NoCompression {
        Transition {
            phase: Phase::Copying,
            effects: seq![complete, EffectView::CreateParentDir(m.output)],
            request: RequestView::Copy { from: merged_path(m), to: m.output },
        }
    } else {
        Transition {
            phase: Phase::Counting,
            effects: seq![complete],
            request: run(Tool::Qpdf, page_count_args(merged_path(m)), None),
        }
    }
}

pub open spec fn small_message(pages: nat) -> Seq<char> {
    "Document is small ("@ + decimal(pages) + " pages) — compressing in one pass…"@
}

pub open spec fn split_message(chunks: nat, pages_each: nat) -> Seq<char> {
    "Splitting into "@ + decimal(chunks) + " chunks ("@ + decimal(pages_each) + " pages each)…"@
}

pub open spec fn split_run(m: JobMachineView, ranges: Seq<(int, int)>, i: int) -> ToolRunView {
    ToolRunView {
        tool: Tool::Qpdf,
        args: split_args(
            merged_path(m),
            ranges[i].0 as nat,
            ranges[i].1 as nat,
            chunk_file(m, i as nat),
        ),
        expected_output: None,
    }
}

pub open spec fn compress_run(m: JobMachineView, i: int) -> ToolRunView {
    ToolRunView {
        tool: Tool::Ghostscript,
        args: compress_args(
            chunk_file(m, i as nat),
            comp_file(m, i as nat),
            preset_settings(m.preset),
            1,
        ),
        expected_output: None,
    }
}

/// With the page count known: compress in one pass, or split into chunks.
pub open spec fn counted(m: JobMachineView, pages: nat) -> Transition {
    if !uses_chunks(pages, m.workers) {
        Transition {
            phase: Phase::BeforeSingle,
            effects: seq![running(m, "compress"@, 30, small_message(pages))],
            request: RequestView::CheckCancelled,
        }
    } else {
        let ranges = chunk_ranges(pages, m.workers);
        let k = ranges.len();
        Transition {
            phase: Phase::Splitting { chunks: k as usize },
            effects: seq![
                EffectView::CreateDir(chunks_dir(m)),
                EffectView::CreateDir(comp_dir(m)),
                running(m, "split"@, 25, split_message(k, pages / m.workers)),
            ],
            request: RequestView::Split {
                runs: Seq::new(k, |i: int| split_run(m, ranges, i)),
                workers: m.workers,
            },
        }
    }
}

pub open spec fn split_ok(o: Option<ExitReport>) -> bool {
    match o {
        Some(r) => qpdf_accepted(r),
        None => false,
    }
}

/// Index of the first split that failed.
pub open spec fn first_failed_split(v: Seq<Option<ExitReport>>) -> Option<nat>
    decreases v.len(),
{
    if v.len() == 0 {
        None
    } else if !split_ok(v[0]) {
        Some(0)
    } else {
        match first_failed_split(v.drop_first()) {
            Some(i) => Some(i + 1),
            None => None,
        }
    }
}

/// Index of the first chunk that was not compressed.
pub open spec fn first_unfinished_chunk(v: Seq<ChunkOutcome>) -> Option<nat>
    decreases v.len(),
{
    if v.len() == 0 {
        None
    } else if v[0] != ChunkOutcome::Compressed {
        Some(0)
    } else {
        match first_unfinished_chunk(v.drop_first()) {
            Some(i) => Some(i + 1),
            None => None,
        }
    }
}

/// Whether `reply` answers the request of `phase`.
pub open spec fn accepts(phase: Phase, reply: Reply) -> bool {
    match phase {
        Phase::Start => reply is Started,
        Phase::BeforeMerge | Phase::BeforeSingle | Phase::BeforeChunks { .. } => reply is Cancelled,
        Phase::QpdfMerge | Phase::GsMerge | Phase::Counting | Phase::Single | Phase::Assembling =>
            reply is Ran,
        Phase::Copying => reply is Copied,
        Phase::Splitting { chunks } => match reply {
            Reply::SplitDone(v) => v@.len() == chunks,
            _ => false,
        },
        Phase::Compressing { chunks } => match reply {
            Reply::ChunksDone(v) => v@.len() == chunks,
            _ => false,
        },
        Phase::Finished => false,
    }
}

/// The pipeline, one step at a time.
pub open spec fn job_step(m: JobMachineView, reply: Reply) -> Transition {
    match (m.phase, reply) {
        (Phase::Start, _) => on_start(m),
        (Phase::BeforeMerge, Reply::Cancelled(c)) => if c {
            cancelled_job(m)
        } else {
            Transition { phase: Phase::QpdfMerge, effects: seq![], request: qpdf_merge_request(m) }
        },
        (Phase::QpdfMerge, Reply::Ran(r)) => if qpdf_accepted(r) && r.output_exists {
            merged(m)
        } else {
            Transition {
                phase: Phase::GsMerge,
                effects: seq![
                    running(m, "merge"@, 12, "Fast merge failed — retrying with Ghostscript…"@),
                ],
                request: gs_merge_request(m),
            }
        },
        (Phase::GsMerge, Reply::Ran(r)) => if gs_accepted(r) && r.output_exists {
            merged(m)
        } else {
            fail_and_clean(m, "Merge failed. The input PDF may be too corrupted."@)
        },
        (Phase::Copying, Reply::Copied(res)) => match res {
            Ok(_) => finish_with(m, completion(m)),
            Err(e) => finish_with(m, failure(m, "Save failed: "@ + e@)),
        },
        (Phase::Counting, Reply::Ran(r)) => match page_count_of(r) {
            Some(n) => if n > 0 {
                counted(m, n)
            } else {
                fail_and_clean(m, "Could not read page count."@)
            },
            None => fail_and_clean(m, "Could not read page count."@),
        },
        (Phase::BeforeSingle, Reply::Cancelled(c)) => if c {
            cancelled_job(m)
        } else {
            Transition {
                phase: Phase::Single,
                effects: seq![EffectView::CreateParentDir(m.output)],
                request: run(
                    Tool::Ghostscript,
                    compress_args(merged_path(m), m.output, preset_settings(m.preset), m.workers),
                    None,
                ),
            }
        },
        (Phase::Single, Reply::Ran(r)) => if gs_accepted(r) {
            finish_with(m, completion(m))
        } else {
            finish_with(m, failure(m, "Compression failed."@))
        },
        (Phase::Splitting { chunks }, Reply::SplitDone(v)) => match first_failed_split(v@) {
            Some(i) => fail_and_clean(m, "Split failed for chunk "@ + decimal(i) + "."@),
            None => Transition {
                phase: Phase::BeforeChunks { chunks },
                effects: seq![],
                request: RequestView::CheckCancelled,
            },
        },
        (Phase::BeforeChunks { chunks }, Reply::Cancelled(c)) => if c {
            cancelled_job(m)
        } else {
            Transition {
                phase: Phase::Compressing { chunks },
                effects: seq![running(m, "compress"@, 40, "Compressing chunks in parallel…"@)],
                request: RequestView::CompressChunks {
                    runs: Seq::new(chunks as nat, |i: int| compress_run(m, i)),
                    workers: m.workers,
                },
            }
        },
        (Phase::Compressing { chunks }, Reply::ChunksDone(v)) => match first_unfinished_chunk(v@) {
            Some(i) => if v@[i as int] == ChunkOutcome::Cancelled {
                cancelled_job(m)
            } else {
                fail_and_clean(
                    m,
                    "Compression error: Chunk "@ + decimal(i) + " compression failed"@,
                )
            },
            None => Transition {
                phase: Phase::Assembling,
                effects: seq![
                    running(m, "finalize"@, 90, "Assembling final PDF…"@),
                    EffectView::CreateParentDir(m.output),
                ],
                request: run(
                    Tool::Qpdf,
                    assemble_args(assembly_parts(m, chunks as nat), m.output),
                    None,
                ),
            },
        },
        (Phase::Assembling, Reply::Ran(r)) => if qpdf_accepted(r) {
            finish_with(m, completion(m))
        } else {
            finish_with(m, failure(m, "Final assembly failed."@))
        },
        _ => stop(seq![]),
    }
}

/// The initial state of a job.
pub open spec fn initial_job(
    job_id: Seq<char>,
    req: CreateJobRequest,
    workers: nat,
    temp_root: Seq<char>,
    style: PathStyle,
) -> JobMachineView {
    JobMachineView {
        job_id,
        files: req.files@.map_values(|f: InputFile| f.path@),
        output: req.output_path@,
        preset: req.preset,
        workers,
        style,
        temp_dir: joined(temp_root, scratch_dir_name(job_id), style),
        phase: Phase::Start,
    }
}

/// The progress report a chunk worker publishes when its run succeeded.
pub open spec fn chunk_progress(job_id: Seq<char>, done: nat, total: nat) -> JobEventView {
    JobEventView {
        job_id,
        stage: "compress"@,
        progress: Progress::Chunks { done: done as usize, total: total as usize },
        message: "Compressed "@ + decimal(done) + "/"@ + decimal(total),
        status: "running"@,
        output: None,
    }
}

} // verus!
