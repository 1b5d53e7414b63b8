//! What every step of the job pipeline keeps.
use vstd::prelude::*;
use crate::chunking::{chunk_ranges, chunk_ranges_partition, uses_chunks};
use crate::commands::{
    assemble_args, compress_args, gs_accepted, merge_gs_args, merge_qpdf_args, page_count_args,
    page_count_of, qpdf_accepted, qpdf_pages_head, split_args, ExitReport, Tool, ToolRunView,
};
use crate::presets::{preset_settings, CompressionPreset};
use crate::pipeline::{
    accepts, assembly_parts, chunk_file, comp_file, compress_run, first_unfinished_chunk,
    job_step, merged_path, run, with_phase, ChunkOutcome, JobMachineView, Phase, Reply,
    RequestView, EffectView, Transition,
};

verus! {

/// Steps left before a job can be over, at most.
pub open spec fn rank(phase: Phase) -> nat {
    match phase {
        Phase::Start => 10,
        Phase::BeforeMerge => 9,
        Phase::QpdfMerge => 8,
        Phase::GsMerge => 7,
        Phase::Counting => 6,
        Phase::Splitting { .. } => 5,
        Phase::BeforeChunks { .. } => 4,
        Phase::Compressing { .. } => 3,
        Phase::BeforeSingle => 2,
        Phase::Assembling => 1,
        Phase::Single => 1,
        Phase::Copying => 1,
        Phase::Finished => 0,
    }
}

/// Every accepted step moves the job strictly closer to its end, so a job ends after
/// at most ten steps.
pub proof fn step_makes_progress(m: JobMachineView, reply: Reply)
    requires
        accepts(m.phase, reply),
    ensures
        rank(job_step(m, reply).phase) < rank(m.phase),
{
}

/// A step asks for nothing more exactly when the job is over.
pub proof fn stop_exactly_when_finished(m: JobMachineView, reply: Reply)
    requires
        accepts(m.phase, reply),
    ensures
        (job_step(m, reply).phase == Phase::Finished) <==> (job_step(m, reply).request
            == RequestView::Stop),
{
}

pub open spec fn is_terminal_status(s: Seq<char>) -> bool {
    s == "completed"@ || s == "failed"@ || s == "cancelled"@
}

pub open spec fn is_final_report(e: EffectView) -> bool {
    match e {
        EffectView::Emit(ev) => is_terminal_status(ev.status),
        _ => false,
    }
}

pub(crate) proof fn lemma_status_texts()
    ensures
        "running"@ != "completed"@,
        "running"@ != "failed"@,
        "running"@ != "cancelled"@,
        "completed"@ != "cancelled"@,
        "failed"@ != "completed"@,
{
    reveal_strlit("running");
    reveal_strlit("completed");
    reveal_strlit("failed");
    reveal_strlit("cancelled");
    assert("completed"@[1] != "cancelled"@[1]);
    assert("running"@.len() == 7);
    assert("failed"@.len() == 6);
    assert("completed"@.len() == 9);
    assert("running"@[0] != "completed"@[0]);
    assert("running"@[0] != "cancelled"@[0]);
}

/// A job publishes exactly one final report (completed, failed or cancelled), in
/// the step that ends it: a step that ends the job publishes exactly one, and a step
/// that goes on publishes none.
pub proof fn one_final_report(m: JobMachineView, reply: Reply)
    requires
        accepts(m.phase, reply),
    ensures
        ({
            let t = job_step(m, reply);
            &&& t.request == RequestView::Stop ==> exists|i: int|
                0 <= i < t.effects.len() && is_final_report(#[trigger] t.effects[i]) && forall|
                    j: int,
                | 0 <= j < t.effects.len() && j != i ==> !is_final_report(#[trigger] t.effects[j])
            &&& t.request != RequestView::Stop ==> forall|j: int|
                0 <= j < t.effects.len() ==> !is_final_report(#[trigger] t.effects[j])
        }),
{
    lemma_status_texts();
    let t = job_step(m, reply);
    if t.request == RequestView::Stop {
        let i = if m.phase == Phase::Start { 1int } else { 0int };
        assert(is_final_report(t.effects[i]));
        assert(forall|j: int|
            0 <= j < t.effects.len() && j != i ==> !is_final_report(#[trigger] t.effects[j]));
    }
}

pub open spec fn names_output_iff_complete(m: JobMachineView, e: EffectView) -> bool {
    match e {
        EffectView::Emit(ev) => ev.job_id == m.job_id && ev.output == (if ev.status
            == "completed"@ {
            Some(m.output)
        } else {
            None::<Seq<char>>
        }),
        _ => true,
    }
}

/// Every report carries the job's identifier, and only the completion report names
/// the written file, which is the requested output path.
pub proof fn completion_names_output(m: JobMachineView, reply: Reply)
    requires
        accepts(m.phase, reply),
    ensures
        forall|i: int|
            0 <= i < job_step(m, reply).effects.len() ==> names_output_iff_complete(
                m,
                #[trigger] job_step(m, reply).effects[i],
            ),
{
    lemma_status_texts();
    let t = job_step(m, reply);
    assert forall|i: int| 0 <= i < t.effects.len() implies names_output_iff_complete(
        m,
        #[trigger] t.effects[i],
    ) by {
        assert(t.effects[i] == job_step(m, reply).effects[i]);
    }
}

/// Once the scratch directory exists (every phase after the start), the step that
/// ends the job removes it, as its last effect.
pub proof fn scratch_dir_removed_at_end(m: JobMachineView, reply: Reply)
    requires
        accepts(m.phase, reply),
        m.phase != Phase::Start,
        job_step(m, reply).request == RequestView::Stop,
    ensures
        job_step(m, reply).effects.len() > 0,
        job_step(m, reply).effects.last() == EffectView::RemoveDir(m.temp_dir),
{
}

/// A job whose output path is one of its inputs fails at once: it reports the
/// failure and touches no file and runs no tool.
pub proof fn inputs_never_overwritten(m: JobMachineView, reply: Reply)
    requires
        m.phase == Phase::Start,
        m.files.contains(m.output),
    ensures
        job_step(m, reply).request == RequestView::Stop,
        forall|i: int|
            0 <= i < job_step(m, reply).effects.len() ==> #[trigger] job_step(m, reply).effects[i] is Emit,
{
}

/// A job leaves the table of active jobs only in the step after its output was
/// written (or failed to be), and that step ends the job.
pub proof fn leaves_table_after_output_step(m: JobMachineView, reply: Reply)
    requires
        accepts(m.phase, reply),
        job_step(m, reply).effects.contains(EffectView::FinishJob),
    ensures
        m.phase == Phase::Copying || m.phase == Phase::Single || m.phase == Phase::Assembling,
        job_step(m, reply).request == RequestView::Stop,
{
    let t = job_step(m, reply);
    let i = choose|i: int| 0 <= i < t.effects.len() && t.effects[i] == EffectView::FinishJob;
    assert(t.effects[i] == EffectView::FinishJob);
}


/// When a document is split, there is one qpdf run per chunk, chunk `i` copying
/// exactly the pages of the `i`-th range into its own file; the ranges cover every
/// page once, in order, and at most `workers` splits run at a time.
pub proof fn split_covers_every_page(m: JobMachineView, r: ExitReport, pages: nat)
    requires
        m.phase == Phase::Counting,
        m.workers > 0,
        page_count_of(r) == Some(pages),
        pages > 0,
        uses_chunks(pages, m.workers),
    ensures
        ({
            let ranges = chunk_ranges(pages, m.workers);
            let t = job_step(m, Reply::Ran(r));
            &&& t.phase == Phase::Splitting { chunks: ranges.len() as usize }
            &&& t.request matches RequestView::Split { runs, workers } && workers == m.workers
                && runs.len() == ranges.len() && forall|i: int|
                0 <= i < runs.len() ==> #[trigger] runs[i] == ToolRunView {
                    tool: Tool::Qpdf,
                    args: split_args(
                        merged_path(m),
                        ranges[i].0 as nat,
                        ranges[i].1 as nat,
                        chunk_file(m, i as nat),
                    ),
                    expected_output: None,
                }
            &&& ranges[0].0 == 1 && ranges.last().1 == pages
            &&& forall|i: int| 0 <= i < ranges.len() - 1 ==> #[trigger] ranges[i + 1].0 == ranges[i].1 + 1
        }),
{
    chunk_ranges_partition(pages, m.workers);
}

/// A document with fewer than ten pages per worker is recompressed in one
/// Ghostscript run with one rendering thread per worker; a split document's chunks
/// are each recompressed with a single rendering thread.
pub proof fn compression_thread_counts(m: JobMachineView, chunks: usize)
    ensures
        m.phase == Phase::BeforeSingle ==> job_step(m, Reply::Cancelled(false)).request == run(
            Tool::Ghostscript,
            compress_args(merged_path(m), m.output, preset_settings(m.preset), m.workers),
            None,
        ),
        m.phase == (Phase::BeforeChunks { chunks }) ==> job_step(
            m,
            Reply::Cancelled(false),
        ).request == (RequestView::CompressChunks {
            runs: Seq::new(chunks as nat, |i: int| compress_run(m, i)),
            workers: m.workers,
        }),
        forall|i: int| #[trigger] compress_run(m, i).args == compress_args(
            chunk_file(m, i as nat),
            comp_file(m, i as nat),
            preset_settings(m.preset),
            1,
        ),
{
}

/// The least progress a job in `phase` has already reported.
pub open spec fn progress_floor(phase: Phase) -> u32 {
    match phase {
        Phase::Start => 0,
        Phase::BeforeMerge | Phase::QpdfMerge => 10,
        Phase::GsMerge => 12,
        Phase::Counting | Phase::Copying => 20,
        Phase::Splitting { .. } | Phase::BeforeChunks { .. } => 25,
        Phase::BeforeSingle | Phase::Single => 30,
        Phase::Compressing { .. } => 40,
        Phase::Assembling => 90,
        Phase::Finished => 100,
    }
}

pub open spec fn running_percent(e: EffectView) -> Option<u32> {
    match e {
        EffectView::Emit(ev) => if ev.status == "running"@ {
            match ev.progress {
                crate::pipeline::Progress::Percent(p) => Some(p),
                _ => None,
            }
        } else {
            None
        },
        _ => None,
    }
}

/// Progress reports of a running job never go back: within a step they rise, and
/// each lies between what the job had reported before the step and what it has
/// reported after it.
pub proof fn running_progress_never_goes_back(m: JobMachineView, reply: Reply)
    requires
        accepts(m.phase, reply),
    ensures
        ({
            let t = job_step(m, reply);
            &&& forall|i: int|
                0 <= i < t.effects.len() && #[trigger] running_percent(t.effects[i]) is Some ==> progress_floor(m.phase)
                    <= running_percent(t.effects[i])->0 <= progress_floor(t.phase)
            &&& forall|i: int, j: int|
                0 <= i < j < t.effects.len() && #[trigger] running_percent(t.effects[i]) is Some
                    && #[trigger] running_percent(t.effects[j]) is Some ==> running_percent(
                    t.effects[i],
                )->0 <= running_percent(t.effects[j])->0
        }),
{
    lemma_status_texts();
}

proof fn lemma_all_compressed(v: Seq<ChunkOutcome>)
    requires
        forall|i: int| 0 <= i < v.len() ==> v[i] == ChunkOutcome::Compressed,
    ensures
        first_unfinished_chunk(v) is None,
    decreases v.len(),
{
    if v.len() > 0 {
        assert(v[0] == ChunkOutcome::Compressed);
        lemma_all_compressed(v.drop_first());
    }
}

/// The merge names the input files to each tool in the order the user listed them:
/// to qpdf right after its fixed head, to Ghostscript after its options.
pub proof fn merge_keeps_input_order(m: JobMachineView, r: ExitReport)
    requires
        m.phase == Phase::BeforeMerge,
    ensures
        job_step(m, Reply::Cancelled(false)).request matches RequestView::Run(q) && q.tool
            == Tool::Qpdf && q.args.subrange(
            qpdf_pages_head().len() as int,
            qpdf_pages_head().len() + m.files.len() as int,
        ) == m.files,
        !(qpdf_accepted(r) && r.output_exists) ==> (job_step(
            with_phase(m, Phase::QpdfMerge),
            Reply::Ran(r),
        ).request matches RequestView::Run(g) && g.tool == Tool::Ghostscript && g.args.subrange(
            5,
            5 + m.files.len() as int,
        ) == m.files),
{
    let q = merge_qpdf_args(m.files, merged_path(m));
    assert(q.subrange(3, 3 + m.files.len() as int) =~= m.files);
    let g = merge_gs_args(m.files, merged_path(m));
    assert(g.subrange(5, 5 + m.files.len() as int) =~= m.files);
}

/// Once every chunk is compressed, the final assembly joins the compressed parts in
/// chunk order, whatever the number of chunks: the `i`-th part named to qpdf is the
/// file that chunk `i`'s compression wrote, and the output path comes last.
pub proof fn assembly_follows_chunk_order(
    m: JobMachineView,
    chunks: usize,
    outcomes: Vec<ChunkOutcome>,
)
    requires
        m.phase == (Phase::Compressing { chunks }),
        outcomes@.len() == chunks,
        forall|i: int| 0 <= i < outcomes@.len() ==> outcomes@[i] == ChunkOutcome::Compressed,
    ensures
        ({
            let n = outcomes@.len();
            let h = qpdf_pages_head().len();
            let t = job_step(m, Reply::ChunksDone(outcomes));
            &&& t.phase == Phase::Assembling
            &&& t.request matches RequestView::Run(q) && q.tool == Tool::Qpdf && q.args.len() == h
                + n + 3 && q.args.last() == m.output && forall|i: int|
                0 <= i < n ==> #[trigger] q.args[h + i] == comp_file(m, i as nat)
                    && compress_run(m, i).args == compress_args(
                    chunk_file(m, i as nat),
                    comp_file(m, i as nat),
                    preset_settings(m.preset),
                    1,
                )
        }),
{
    lemma_all_compressed(outcomes@);
    let n = outcomes@.len();
    let parts = assembly_parts(m, n);
    let a = assemble_args(parts, m.output);
    assert(qpdf_pages_head().len() == 3);
    assert(a.len() == 3 + n + 3);
    assert(a.last() == m.output);
    assert forall|i: int| 0 <= i < n implies #[trigger] a[3 + i] == comp_file(m, i as nat) by {
        assert(a[3 + i] == parts[i]);
    }
}

/// After a successful merge (by qpdf, or by Ghostscript after qpdf failed) the
/// merged file is copied straight to the output exactly when the preset is
/// `NoCompression`; for every other preset the job counts the merged file's pages
/// on its way to recompression and touches neither the output nor its folder.
pub proof fn merge_success_compresses_unless_no_compression(m: JobMachineView, r: ExitReport)
    requires
        (m.phase == Phase::QpdfMerge && qpdf_accepted(r) && r.output_exists) || (m.phase
            == Phase::GsMerge && gs_accepted(r) && r.output_exists),
    ensures
        ({
            let t = job_step(m, Reply::Ran(r));
            &&& m.preset == CompressionPreset::NoCompression ==> t.phase == Phase::Copying
                && t.request == (RequestView::Copy { from: merged_path(m), to: m.output })
            &&& m.preset != CompressionPreset::NoCompression ==> t.phase == Phase::Counting
                && t.request == run(Tool::Qpdf, page_count_args(merged_path(m)), None) && forall|
                i: int,
            | 0 <= i < t.effects.len() ==> !(#[trigger] t.effects[i] is CreateParentDir)
        }),
{
}

/// Which phases a step can lead to, whatever the reply: the copy straight through
/// only for `NoCompression`, the page count (and so Ghostscript's recompression)
/// only for the other presets.
pub proof fn copy_only_without_compression(m: JobMachineView, reply: Reply)
    requires
        accepts(m.phase, reply),
    ensures
        job_step(m, reply).phase == Phase::Copying ==> m.preset == CompressionPreset::NoCompression,
        job_step(m, reply).phase == Phase::Counting ==> m.preset != CompressionPreset::NoCompression,
        job_step(m, reply).phase == Phase::Single ==> job_step(m, reply).request == run(
            Tool::Ghostscript,
            compress_args(merged_path(m), m.output, preset_settings(m.preset), m.workers),
            None,
        ),
{
}

} // verus!
