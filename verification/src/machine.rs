//! The executable job state machine.
use vstd::prelude::*;
use crate::chunking::{build_chunk_ranges, chunk_ranges, ranges_view, use_chunks};
use crate::commands::{
    assemble_arguments, compress_arguments, gs_ok, merge_gs_arguments, merge_qpdf_arguments,
    page_count, page_count_arguments, qpdf_ok, split_arguments, texts, ExitReport, Tool, ToolRun,
};
use crate::ids::{is_v4_uuid_text, new_job_id};
use crate::jobs::PipelineState;
use crate::paths::{join_path, numbered_pdf_name, scratch_dir_name_of, PathStyle};
use crate::pipeline::{
    accepts, assembly_parts, cancelled_job, chunks_dir, comp_dir, comp_file, completion, compress_run, counted,
    effects_view, emit, failure, fail_and_clean, finish_with, first_failed_split,
    first_unfinished_chunk, initial_job, job_step, merged, merged_path, on_start,
    running, runs_view, split_ok, split_run, stop, with_phase, chunk_progress, ChunkOutcome,
    CreateJobRequest, Effect, InputFile, JobEvent, JobMachineView, Phase, Progress, Reply,
    Request, RequestView, Transition,
};
use crate::presets::{preset_to_gs_settings, CompressionPreset};
use crate::text::{opt_view, push_decimal, text};

verus! {

/// A job: what was asked, where its scratch files go, and where it stands.
pub struct JobMachine {
    job_id: String,
    files: Vec<String>,
    output_path: String,
    preset: CompressionPreset,
    workers: usize,
    style: PathStyle,
    temp_dir: String,
    merged: String,
    chunks_dir: String,
    comp_dir: String,
    phase: Phase,
}

impl View for JobMachine {
    type V = JobMachineView;

    closed spec fn view(&self) -> JobMachineView {
        JobMachineView {
            job_id: self.job_id@,
            files: texts(self.files@),
            output: self.output_path@,
            preset: self.preset,
            workers: self.workers as nat,
            style: self.style,
            temp_dir: self.temp_dir@,
            phase: self.phase,
        }
    }
}

/// What one step yields: effects to perform now, then the next request.
#[derive(Debug)]
pub struct Step {
    pub effects: Vec<Effect>,
    pub request: Request,
}

/// The transition `t` as `s` carries it out.
pub open spec fn carries(s: Step, t: Transition) -> bool {
    effects_view(s.effects@) == t.effects && s.request@ == t.request
}


fn text_then(a: &str, b: &str) -> (r: String)
    ensures
        r@ == a@ + b@,
{
    let mut r = String::from_str(a);
    r.append(b);
    r
}

fn tool_run(tool: Tool, args: Vec<String>, expected_output: Option<String>) -> (r: ToolRun)
    ensures
        r@.tool == tool,
        r@.args == texts(args@),
        r@.expected_output == opt_view(expected_output),
{
    ToolRun { tool, args, expected_output }
}

/// The report a chunk worker publishes after compressing: `Compressed <done>/<total>`.
pub fn chunk_progress_event(job_id: &str, done: usize, total: usize) -> (e: JobEvent)
    ensures
        e@ == chunk_progress(job_id@, done as nat, total as nat),
{
    let mut message = text("Compressed ");
    push_decimal(&mut message, done);
    message.append("/");
    push_decimal(&mut message, total);
    JobEvent {
        job_id: text(job_id),
        stage: text("compress"),
        progress: Progress::Chunks { done, total },
        message,
        status: text("running"),
        output: None,
    }
}

/// How a chunk's compression ended, from its Ghostscript run.
pub fn chunk_outcome(r: &ExitReport) -> (o: ChunkOutcome)
    ensures
        o == (if crate::commands::gs_accepted(*r) {
            ChunkOutcome::Compressed
        } else {
            ChunkOutcome::Failed
        }),
{
    if gs_ok(r) {
        ChunkOutcome::Compressed
    } else {
        ChunkOutcome::Failed
    }
}

proof fn lemma_first_failed_split(v: Seq<Option<ExitReport>>, i: int)
    requires
        0 <= i <= v.len(),
        forall|j: int| 0 <= j < i ==> split_ok(#[trigger] v[j]),
    ensures
        i < v.len() && !split_ok(v[i]) ==> first_failed_split(v) == Some(i as nat),
        i == v.len() ==> first_failed_split(v) is None,
    decreases i,
{
    if i > 0 {
        assert(split_ok(v[0]));
        lemma_first_failed_split(v.drop_first(), i - 1);
    }
}

proof fn lemma_first_unfinished_chunk(v: Seq<ChunkOutcome>, i: int)
    requires
        0 <= i <= v.len(),
        forall|j: int| 0 <= j < i ==> #[trigger] v[j] == ChunkOutcome::Compressed,
    ensures
        i < v.len() && v[i] != ChunkOutcome::Compressed ==> first_unfinished_chunk(v) == Some(
            i as nat,
        ),
        i == v.len() ==> first_unfinished_chunk(v) is None,
    decreases i,
{
    if i > 0 {
        assert(v[0] == ChunkOutcome::Compressed);
        lemma_first_unfinished_chunk(v.drop_first(), i - 1);
    }
}

fn first_failed_split_index(v: &Vec<Option<ExitReport>>) -> (r: Option<usize>)
    ensures
        match r {
            Some(i) => first_failed_split(v@) == Some(i as nat),
            None => first_failed_split(v@) is None,
        },
{
    let n = v.len();
    for i in 0..n
        invariant
            n == v@.len(),
            forall|j: int| 0 <= j < i ==> split_ok(#[trigger] v@[j]),
    {
        let ok = match &v[i] {
            Some(r) => qpdf_ok(r),
            None => false,
        };
        if !ok {
            proof {
                lemma_first_failed_split(v@, i as int);
            }
            return Some(i);
        }
    }
    proof {
        lemma_first_failed_split(v@, n as int);
    }
    None
}

fn first_unfinished_chunk_index(v: &Vec<ChunkOutcome>) -> (r: Option<usize>)
    ensures
        match r {
            Some(i) => first_unfinished_chunk(v@) == Some(i as nat) && i < v@.len(),
            None => first_unfinished_chunk(v@) is None,
        },
{
    let n = v.len();
    for i in 0..n
        invariant
            n == v@.len(),
            forall|j: int| 0 <= j < i ==> #[trigger] v@[j] == ChunkOutcome::Compressed,
    {
        if v[i] != ChunkOutcome::Compressed {
            proof {
                lemma_first_unfinished_chunk(v@, i as int);
            }
            return Some(i);
        }
    }
    proof {
        lemma_first_unfinished_chunk(v@, n as int);
    }
    None
}

impl JobMachine {
    /// The scratch paths agree with the scratch directory, and there is a worker.
    pub closed spec fn wf(&self) -> bool {
        &&& self.merged@ == merged_path(self@)
        &&& self.chunks_dir@ == chunks_dir(self@)
        &&& self.comp_dir@ == comp_dir(self@)
        &&& self.workers > 0
    }

    /// A new job `job_id` for `req`, run with `workers` workers, whose scratch
    /// directory is `pdftool-<job_id>` under `temp_root`.
    pub fn new(
        job_id: String,
        req: CreateJobRequest,
        workers: usize,
        temp_root: &str,
        style: PathStyle,
    ) -> (m: JobMachine)
        requires
            workers > 0,
        ensures
            m.wf(),
            m@ == initial_job(job_id@, req, workers as nat, temp_root@, style),
    {
        let CreateJobRequest { files: inputs, output_path, preset } = req;
        let mut files: Vec<String> = Vec::new();
        let n = inputs.len();
        for i in 0..n
            invariant
                n == inputs@.len(),
                texts(files@) == inputs@.take(i as int).map_values(|f: InputFile| f.path@),
        {
            let ghost prev = files@;
            files.push(inputs[i].path.clone());
            assert(texts(files@) =~= texts(prev).push(inputs@[i as int].path@));
            assert(inputs@.take(i + 1).map_values(|f: InputFile| f.path@) =~= inputs@.take(
                i as int,
            ).map_values(|f: InputFile| f.path@).push(inputs@[i as int].path@));
        }
        assert(inputs@.take(n as int) == inputs@);
        let dir_name = scratch_dir_name_of(job_id.as_str());
        let temp_dir = join_path(temp_root, dir_name.as_str(), style);
        let merged = join_path(temp_dir.as_str(), "merged.pdf", style);
        let chunks_dir = join_path(temp_dir.as_str(), "chunks", style);
        let comp_dir = join_path(temp_dir.as_str(), "comp", style);
        JobMachine {
            job_id,
            files,
            output_path,
            preset,
            workers,
            style,
            temp_dir,
            merged,
            chunks_dir,
            comp_dir,
            phase: Phase::Start,
        }
    }

    /// The job's identifier.
    pub fn job_id(&self) -> (id: &String)
        ensures
            id@ == self@.job_id,
    {
        &self.job_id
    }

    /// The job's phase.
    pub fn phase(&self) -> (p: Phase)
        ensures
            p == self@.phase,
    {
        self.phase
    }

    /// Whether `reply` answers the current request.
    pub fn accepts(&self, reply: &Reply) -> (b: bool)
        ensures
            b == accepts(self@.phase, *reply),
    {
        match (self.phase, reply) {
            (Phase::Start, Reply::Started) => true,
            (Phase::BeforeMerge, Reply::Cancelled(_)) => true,
            (Phase::BeforeSingle, Reply::Cancelled(_)) => true,
            (Phase::BeforeChunks { .. }, Reply::Cancelled(_)) => true,
            (Phase::QpdfMerge, Reply::Ran(_)) => true,
            (Phase::GsMerge, Reply::Ran(_)) => true,
            (Phase::Counting, Reply::Ran(_)) => true,
            (Phase::Single, Reply::Ran(_)) => true,
            (Phase::Assembling, Reply::Ran(_)) => true,
            (Phase::Copying, Reply::Copied(_)) => true,
            (Phase::Splitting { chunks }, Reply::SplitDone(v)) => v.len() == chunks,
            (Phase::Compressing { chunks }, Reply::ChunksDone(v)) => v.len() == chunks,
            _ => false,
        }
    }

    fn event(
        &self,
        stage: &str,
        progress: Progress,
        message: String,
        status: &str,
        output: Option<String>,
    ) -> (e: Effect)
        ensures
            e@ == emit(self@, stage@, progress, message@, status@, opt_view(output)),
    {
        Effect::Emit(
            JobEvent {
                job_id: self.job_id.clone(),
                stage: text(stage),
                progress,
                message,
                status: text(status),
                output,
            },
        )
    }

    fn running(&self, stage: &str, percent: u32, message: String) -> (e: Effect)
        ensures
            e@ == running(self@, stage@, percent, message@),
    {
        self.event(stage, Progress::Percent(percent), message, "running", None)
    }

    fn failure(&self, message: String) -> (e: Effect)
        ensures
            e@ == failure(self@, message@),
    {
        self.event("error", Progress::Percent(0), message, "failed", None)
    }

    fn completion(&self) -> (e: Effect)
        ensures
            e@ == completion(self@),
    {
        self.event("done", Progress::Percent(100), text("Done"), "completed", Some(self.output_path.clone()))
    }

    fn stop_with(effects: Vec<Effect>) -> (s: Step)
        ensures
            carries(s, stop(effects_view(effects@))),
    {
        Step { effects, request: Request::Stop }
    }

    fn fail_and_clean(&self, message: String) -> (s: Step)
        ensures
            carries(s, fail_and_clean(self@, message@)),
    {
        let mut effects: Vec<Effect> = Vec::new();
        effects.push(self.failure(message));
        effects.push(Effect::RemoveDir(self.temp_dir.clone()));
        assert(effects_view(effects@) =~= fail_and_clean(self@, message@).effects);
        Self::stop_with(effects)
    }

    fn cancelled(&self) -> (s: Step)
        ensures
            carries(s, cancelled_job(self@)),
    {
        let mut effects: Vec<Effect> = Vec::new();
        effects.push(self.event("cancel", Progress::Percent(100), text("Job cancelled"), "cancelled", None));
        effects.push(Effect::RemoveDir(self.temp_dir.clone()));
        assert(effects_view(effects@) =~= cancelled_job(self@).effects);
        Self::stop_with(effects)
    }

    fn finish_with(&self, report: Effect) -> (s: Step)
        ensures
            carries(s, finish_with(self@, report@)),
    {
        let mut effects: Vec<Effect> = Vec::new();
        effects.push(report);
        effects.push(Effect::FinishJob);
        effects.push(Effect::RemoveDir(self.temp_dir.clone()));
        assert(effects_view(effects@) =~= finish_with(self@, report@).effects);
        Self::stop_with(effects)
    }

    fn output_is_input(&self) -> (b: bool)
        ensures
            b == self@.files.contains(self@.output),
    {
        let n = self.files.len();
        for i in 0..n
            invariant
                n == self.files@.len(),
                forall|j: int| 0 <= j < i ==> #[trigger] self.files@[j]@ != self.output_path@,
        {
            if self.files[i] == self.output_path {
                assert(self@.files[i as int] == self@.output);
                return true;
            }
        }
        proof {
            if self@.files.contains(self@.output) {
                let j = choose|j: int| 0 <= j < self@.files.len() && self@.files[j] == self@.output;
                assert(self.files@[j]@ == self.output_path@);
            }
        }
        false
    }

    fn on_start(&self) -> (r: (Phase, Step))
        requires
            self.wf(),
        ensures
            r.0 == on_start(self@).phase,
            carries(r.1, on_start(self@)),
    {
        let init = self.running("init", 5, text("Starting job"));
        let mut effects: Vec<Effect> = Vec::new();
        effects.push(init);
        if self.output_is_input() {
            effects.push(self.failure(text("Output path matches an input file. Choose a different output name.")));
            assert(effects_view(effects@) =~= on_start(self@).effects);
            (Phase::Finished, Self::stop_with(effects))
        } else {
            effects.push(Effect::CreateDir(self.temp_dir.clone()));
            effects.push(self.running("merge", 10, text("Merging files…")));
            assert(effects_view(effects@) =~= on_start(self@).effects);
            (Phase::BeforeMerge, Step { effects, request: Request::CheckCancelled })
        }
    }

    fn merged(&self) -> (r: (Phase, Step))
        requires
            self.wf(),
        ensures
            r.0 == merged(self@).phase,
            carries(r.1, merged(self@)),
    {
        let mut effects: Vec<Effect> = Vec::new();
        effects.push(self.running("merge", 20, text("Merge complete")));
        if self.preset == CompressionPreset::NoCompression {
            effects.push(Effect::CreateParentDir(self.output_path.clone()));
            assert(effects_view(effects@) =~= merged(self@).effects);
            (
                Phase::Copying,
                Step {
                    effects,
                    request: Request::Copy { from: self.merged.clone(), to: self.output_path.clone() },
                },
            )
        } else {
            let args = page_count_arguments(self.merged.as_str());
            assert(effects_view(effects@) =~= merged(self@).effects);
            (Phase::Counting, Step { effects, request: Request::Run(tool_run(Tool::Qpdf, args, None)) })
        }
    }

    fn counted(&self, pages: usize) -> (r: (Phase, Step))
        requires
            self.wf(),
            pages > 0,
        ensures
            r.0 == counted(self@, pages as nat).phase,
            carries(r.1, counted(self@, pages as nat)),
    {
        let mut effects: Vec<Effect> = Vec::new();
        if !use_chunks(pages, self.workers) {
            let mut message = text("Document is small (");
            push_decimal(&mut message, pages);
            message.append(" pages) — compressing in one pass…");
            effects.push(self.running("compress", 30, message));
            assert(effects_view(effects@) =~= counted(self@, pages as nat).effects);
            return (Phase::BeforeSingle, Step { effects, request: Request::CheckCancelled });
        }
        let ranges = build_chunk_ranges(pages, self.workers);
        let ghost spec_ranges = chunk_ranges(pages as nat, self.workers as nat);
        let k = ranges.len();
        assert(ranges_view(ranges@) == spec_ranges);
        assert(k == spec_ranges.len());
        let mut runs: Vec<ToolRun> = Vec::new();
        for i in 0..k
            invariant
                k == ranges@.len(),
                ranges_view(ranges@) == spec_ranges,
                self.wf(),
                runs_view(runs@) =~= Seq::new(i as nat, |j: int| split_run(self@, spec_ranges, j)),
        {
            let (start, end) = ranges[i];
            assert(spec_ranges[i as int] == (start as int, end as int));
            let name = numbered_pdf_name("chunk_", i);
            let dst = join_path(self.chunks_dir.as_str(), name.as_str(), self.style);
            let args = split_arguments(self.merged.as_str(), start, end, dst.as_str());
            let run = tool_run(Tool::Qpdf, args, None);
            let ghost prev = runs@;
            runs.push(run);
            assert(runs_view(runs@) =~= runs_view(prev).push(run@));
        }
        effects.push(Effect::CreateDir(self.chunks_dir.clone()));
        effects.push(Effect::CreateDir(self.comp_dir.clone()));
        let mut message = text("Splitting into ");
        push_decimal(&mut message, k);
        message.append(" chunks (");
        push_decimal(&mut message, pages / self.workers);
        message.append(" pages each)…");
        effects.push(self.running("split", 25, message));
        assert(effects_view(effects@) =~= counted(self@, pages as nat).effects);
        (Phase::Splitting { chunks: k }, Step { effects, request: Request::Split { runs, workers: self.workers } })
    }

    fn compress_request(&self, chunks: usize) -> (r: Request)
        requires
            self.wf(),
        ensures
            r@ == (RequestView::CompressChunks {
                runs: Seq::new(chunks as nat, |i: int| compress_run(self@, i)),
                workers: self.workers as nat,
            }),
    {
        let settings = preset_to_gs_settings(&self.preset);
        let mut runs: Vec<ToolRun> = Vec::new();
        for i in 0..chunks
            invariant
                self.wf(),
                settings@ == crate::presets::preset_settings(self@.preset),
                runs_view(runs@) =~= Seq::new(i as nat, |j: int| compress_run(self@, j)),
        {
            let chunk_name = numbered_pdf_name("chunk_", i);
            let src = join_path(self.chunks_dir.as_str(), chunk_name.as_str(), self.style);
            let comp_name = numbered_pdf_name("comp_", i);
            let dst = join_path(self.comp_dir.as_str(), comp_name.as_str(), self.style);
            let args = compress_arguments(src.as_str(), dst.as_str(), &settings, 1);
            let run = tool_run(Tool::Ghostscript, args, None);
            let ghost prev = runs@;
            runs.push(run);
            assert(runs_view(runs@) =~= runs_view(prev).push(run@));
        }
        Request::CompressChunks { runs, workers: self.workers }
    }

    /// The compressed parts' paths, in chunk order.
    fn assembly_paths(&self, chunks: usize) -> (parts: Vec<String>)
        requires
            self.wf(),
        ensures
            texts(parts@) == assembly_parts(self@, chunks as nat),
    {
        let mut parts: Vec<String> = Vec::new();
        for i in 0..chunks
            invariant
                self.wf(),
                texts(parts@) =~= Seq::new(i as nat, |j: int| comp_file(self@, j as nat)),
        {
            let comp_name = numbered_pdf_name("comp_", i);
            let path = join_path(self.comp_dir.as_str(), comp_name.as_str(), self.style);
            let ghost prev = parts@;
            parts.push(path);
            assert(texts(parts@) =~= texts(prev).push(path@));
        }
        parts
    }

    fn decide(&self, reply: Reply) -> (r: (Phase, Step))
        requires
            self.wf(),
            accepts(self@.phase, reply),
        ensures
            r.0 == job_step(self@, reply).phase,
            carries(r.1, job_step(self@, reply)),
    {
        match (self.phase, reply) {
            (Phase::Start, _) => self.on_start(),
            (Phase::BeforeMerge, Reply::Cancelled(c)) => {
                if c {
                    (Phase::Finished, self.cancelled())
                } else {
                    let args = merge_qpdf_arguments(&self.files, self.merged.as_str());
                    let run = tool_run(Tool::Qpdf, args, Some(self.merged.clone()));
                    let effects: Vec<Effect> = Vec::new();
                    assert(effects_view(effects@) =~= seq![]);
                    (Phase::QpdfMerge, Step { effects, request: Request::Run(run) })
                }
            },
            (Phase::QpdfMerge, Reply::Ran(r)) => {
                if qpdf_ok(&r) && r.output_exists {
                    self.merged()
                } else {
                    let mut effects: Vec<Effect> = Vec::new();
                    effects.push(
                        self.running("merge", 12, text("Fast merge failed — retrying with Ghostscript…")),
                    );
                    let args = merge_gs_arguments(&self.files, self.merged.as_str());
                    let run = tool_run(Tool::Ghostscript, args, Some(self.merged.clone()));
                    assert(effects_view(effects@) =~= job_step(self@, Reply::Ran(r)).effects);
                    (Phase::GsMerge, Step { effects, request: Request::Run(run) })
                }
            },
            (Phase::GsMerge, Reply::Ran(r)) => {
                if gs_ok(&r) && r.output_exists {
                    self.merged()
                } else {
                    (
                        Phase::Finished,
                        self.fail_and_clean(text("Merge failed. The input PDF may be too corrupted.")),
                    )
                }
            },
            (Phase::Copying, Reply::Copied(res)) => {
                match res {
                    Ok(_) => (Phase::Finished, self.finish_with(self.completion())),
                    Err(e) => {
                        let message = text_then("Save failed: ", e.as_str());
                        (Phase::Finished, self.finish_with(self.failure(message)))
                    },
                }
            },
            (Phase::Counting, Reply::Ran(r)) => {
                match page_count(&r) {
                    Some(n) => {
                        if n > 0 {
                            self.counted(n)
                        } else {
                            (Phase::Finished, self.fail_and_clean(text("Could not read page count.")))
                        }
                    },
                    None => (Phase::Finished, self.fail_and_clean(text("Could not read page count."))),
                }
            },
            (Phase::BeforeSingle, Reply::Cancelled(c)) => {
                if c {
                    (Phase::Finished, self.cancelled())
                } else {
                    let settings = preset_to_gs_settings(&self.preset);
                    let args = compress_arguments(
                        self.merged.as_str(),
                        self.output_path.as_str(),
                        &settings,
                        self.workers,
                    );
                    let mut effects: Vec<Effect> = Vec::new();
                    effects.push(Effect::CreateParentDir(self.output_path.clone()));
                    assert(effects_view(effects@) =~= job_step(self@, Reply::Cancelled(c)).effects);
                    (
                        Phase::Single,
                        Step { effects, request: Request::Run(tool_run(Tool::Ghostscript, args, None)) },
                    )
                }
            },
            (Phase::Single, Reply::Ran(r)) => {
                if gs_ok(&r) {
                    (Phase::Finished, self.finish_with(self.completion()))
                } else {
                    (Phase::Finished, self.finish_with(self.failure(text("Compression failed."))))
                }
            },
            (Phase::Splitting { chunks }, Reply::SplitDone(v)) => {
                match first_failed_split_index(&v) {
                    Some(i) => {
                        let mut message = text("Split failed for chunk ");
                        push_decimal(&mut message, i);
                        message.append(".");
                        (Phase::Finished, self.fail_and_clean(message))
                    },
                    None => {
                        let effects: Vec<Effect> = Vec::new();
                        assert(effects_view(effects@) =~= seq![]);
                        (Phase::BeforeChunks { chunks }, Step { effects, request: Request::CheckCancelled })
                    },
                }
            },
            (Phase::BeforeChunks { chunks }, Reply::Cancelled(c)) => {
                if c {
                    (Phase::Finished, self.cancelled())
                } else {
                    let mut effects: Vec<Effect> = Vec::new();
                    effects.push(self.running("compress", 40, text("Compressing chunks in parallel…")));
                    assert(effects_view(effects@) =~= job_step(self@, Reply::Cancelled(c)).effects);
                    (Phase::Compressing { chunks }, Step { effects, request: self.compress_request(chunks) })
                }
            },
            (Phase::Compressing { chunks }, Reply::ChunksDone(v)) => {
                match first_unfinished_chunk_index(&v) {
                    Some(i) => {
                        if v[i] == ChunkOutcome::Cancelled {
                            (Phase::Finished, self.cancelled())
                        } else {
                            let mut message = text("Compression error: Chunk ");
                            push_decimal(&mut message, i);
                            message.append(" compression failed");
                            (Phase::Finished, self.fail_and_clean(message))
                        }
                    },
                    None => {
                        let mut effects: Vec<Effect> = Vec::new();
                        effects.push(self.running("finalize", 90, text("Assembling final PDF…")));
                        effects.push(Effect::CreateParentDir(self.output_path.clone()));
                        assert(effects_view(effects@) =~= job_step(self@, Reply::ChunksDone(v)).effects);
                        let parts = self.assembly_paths(chunks);
                        let args = assemble_arguments(&parts, self.output_path.as_str());
                        (Phase::Assembling, Step { effects, request: Request::Run(tool_run(Tool::Qpdf, args, None)) })
                    },
                }
            },
            (Phase::Assembling, Reply::Ran(r)) => {
                if qpdf_ok(&r) {
                    (Phase::Finished, self.finish_with(self.completion()))
                } else {
                    (Phase::Finished, self.finish_with(self.failure(text("Final assembly failed."))))
                }
            },
            (_, _) => {
                let effects: Vec<Effect> = Vec::new();
                assert(effects_view(effects@) =~= seq![]);
                (Phase::Finished, Self::stop_with(effects))
            },
        }
    }

    /// Advances the job by one step, given the answer to its last request.
    pub fn step(&mut self, reply: Reply) -> (s: Step)
        requires
            old(self).wf(),
            accepts(old(self)@.phase, reply),
        ensures
            final(self).wf(),
            final(self)@ == with_phase(old(self)@, job_step(old(self)@, reply).phase),
            carries(s, job_step(old(self)@, reply)),
    {
        let (phase, s) = self.decide(reply);
        self.phase = phase;
        s
    }
}

/// Starts a job: draws a fresh identifier, registers the job as active and not
/// cancelled, and returns the identifier with the job's state machine.
pub fn begin_job(
    state: &mut PipelineState,
    req: CreateJobRequest,
    workers: usize,
    temp_root: &str,
    style: PathStyle,
) -> (r: (String, JobMachine))
    requires
        workers > 0,
    ensures
        is_v4_uuid_text(r.0@),
        final(state)@ == old(state)@.insert(r.0@, false),
        r.1.wf(),
        r.1@ == initial_job(r.0@, req, workers as nat, temp_root@, style),
{
    let id = new_job_id();
    state.start_job(id.clone());
    let machine = JobMachine::new(id.clone(), req, workers, temp_root, style);
    (id, machine)
}

} // verus!
