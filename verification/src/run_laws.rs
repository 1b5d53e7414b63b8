//! What holds of a whole job, from its first step to its last.
use vstd::prelude::*;
use crate::pipeline::{
    accepts, cancellation, chunk_progress, completion, first_unfinished_chunk, job_step,
    progress_ratio, ratio_le, running, with_phase, ChunkOutcome, EffectView, JobMachineView,
    Phase, Progress, Reply, RequestView, Transition,
};
use crate::presets::CompressionPreset;
use crate::pipeline_laws::{
    copy_only_without_compression, is_final_report, lemma_status_texts, one_final_report, progress_floor, running_percent,
    running_progress_never_goes_back, stop_exactly_when_finished,
};

verus! {

/// The steps of a job that answers its requests with `replies` in turn, for as
/// long as each reply answers the request before it.
pub open spec fn job_run(m: JobMachineView, replies: Seq<Reply>) -> Seq<Transition>
    decreases replies.len(),
{
    if replies.len() == 0 || !accepts(m.phase, replies[0]) {
        seq![]
    } else {
        let t = job_step(m, replies[0]);
        seq![t] + job_run(with_phase(m, t.phase), replies.drop_first())
    }
}

/// Every effect of a run, in order.
pub open spec fn run_effects(ts: Seq<Transition>) -> Seq<EffectView>
    decreases ts.len(),
{
    if ts.len() == 0 {
        seq![]
    } else {
        ts[0].effects + run_effects(ts.drop_first())
    }
}

/// The number of final reports among `es`.
pub open spec fn final_reports(es: Seq<EffectView>) -> nat
    decreases es.len(),
{
    if es.len() == 0 {
        0
    } else {
        (if is_final_report(es[0]) {
            1nat
        } else {
            0nat
        }) + final_reports(es.drop_first())
    }
}

/// The phase a run has reached after its first `k` steps.
pub open spec fn phase_after(m: JobMachineView, replies: Seq<Reply>, k: int) -> Phase {
    if k == 0 {
        m.phase
    } else {
        job_run(m, replies)[k - 1].phase
    }
}

/// Whether the job's output file is written on the way out of `phase`.
pub open spec fn writes_output(phase: Phase) -> bool {
    phase == Phase::Copying || phase == Phase::Single || phase == Phase::Assembling
}

/// Whether `reply` cancels the job: the cancellation flag was found set, or a chunk
/// was skipped because the job was cancelled.
pub open spec fn is_cancellation(phase: Phase, reply: Reply) -> bool {
    match reply {
        Reply::Cancelled(c) => c && (phase == Phase::BeforeMerge || phase == Phase::BeforeSingle
            || phase is BeforeChunks),
        Reply::ChunksDone(v) => phase is Compressing && accepts(phase, reply) && (
        first_unfinished_chunk(v@) matches Some(i) && v@[i as int] == ChunkOutcome::Cancelled),
        _ => false,
    }
}

proof fn lemma_final_reports_concat(a: Seq<EffectView>, b: Seq<EffectView>)
    ensures
        final_reports(a + b) == final_reports(a) + final_reports(b),
    decreases a.len(),
{
    if a.len() > 0 {
        assert((a + b).drop_first() =~= a.drop_first() + b);
        lemma_final_reports_concat(a.drop_first(), b);
    }
}

proof fn lemma_final_reports_count(es: Seq<EffectView>, i: int)
    requires
        -1 <= i < es.len(),
        forall|j: int| 0 <= j < es.len() && j != i ==> !is_final_report(#[trigger] es[j]),
        0 <= i ==> is_final_report(es[i]),
    ensures
        final_reports(es) == (if i >= 0 {
            1nat
        } else {
            0nat
        }),
    decreases es.len(),
{
    if es.len() > 0 {
        let rest = es.drop_first();
        assert forall|j: int| 0 <= j < rest.len() && j != i - 1 implies !is_final_report(
            #[trigger] rest[j],
        ) by {
            assert(rest[j] == es[j + 1]);
        }
        if i == 0 {
            lemma_final_reports_count(rest, -1);
        } else if i > 0 {
            assert(rest[i - 1] == es[i]);
            lemma_final_reports_count(rest, i - 1);
        } else {
            lemma_final_reports_count(rest, -1);
        }
    }
}

proof fn lemma_finished_run_is_empty(m: JobMachineView, replies: Seq<Reply>)
    requires
        m.phase == Phase::Finished,
    ensures
        job_run(m, replies).len() == 0,
{
}

proof fn lemma_run_reports(m: JobMachineView, replies: Seq<Reply>)
    ensures
        ({
            let ts = job_run(m, replies);
            &&& final_reports(run_effects(ts)) == (if ts.len() > 0 && ts.last().request
                == RequestView::Stop {
                1nat
            } else {
                0nat
            })
            &&& forall|j: int| 0 <= j < ts.len() - 1 ==> #[trigger] ts[j].phase != Phase::Finished
            &&& ts.len() > 0 ==> (ts.last().phase == Phase::Finished <==> ts.last().request
                == RequestView::Stop)
            &&& ts.len() <= replies.len()
        }),
    decreases replies.len(),
{
    let ts = job_run(m, replies);
    if ts.len() > 0 {
        let t = job_step(m, replies[0]);
        let m1 = with_phase(m, t.phase);
        let rest = job_run(m1, replies.drop_first());
        assert(ts == seq![t] + rest);
        assert(ts.drop_first() =~= rest);
        assert(ts[0] == t);
        lemma_run_reports(m1, replies.drop_first());
        lemma_final_reports_concat(t.effects, run_effects(rest));
        one_final_report(m, replies[0]);
        stop_exactly_when_finished(m, replies[0]);
        if t.request == RequestView::Stop {
            let i = choose|i: int|
                0 <= i < t.effects.len() && is_final_report(#[trigger] t.effects[i]) && forall|
                    j: int,
                | 0 <= j < t.effects.len() && j != i ==> !is_final_report(#[trigger] t.effects[j]);
            lemma_final_reports_count(t.effects, i);
            lemma_finished_run_is_empty(m1, replies.drop_first());
        } else {
            lemma_final_reports_count(t.effects, -1);
            assert forall|j: int| 0 <= j < ts.len() - 1 implies #[trigger] ts[j].phase
                != Phase::Finished by {
                if j > 0 {
                    assert(ts[j] == rest[j - 1]);
                }
            }
            if rest.len() > 0 {
                assert(ts.last() == rest.last());
            }
        }
    }
}

/// A job's first report is the start of the job (`init`, 5%), and over the whole
/// run it publishes exactly one final report if it ended, none while it goes on,
/// and it ends with its last step; that report is completed (`done`, 100%, naming
/// the output), failed (`error`, 0%, no output) or cancelled (`cancel`, 100%, no
/// output).
pub proof fn run_reports_start_then_one_final(m: JobMachineView, replies: Seq<Reply>)
    requires
        m.phase == Phase::Start,
        replies.len() > 0,
        replies[0] == Reply::Started,
    ensures
        ({
            let ts = job_run(m, replies);
            let es = run_effects(ts);
            &&& ts.len() > 0
            &&& es.len() > 0 && es[0] == running(m, "init"@, 5, "Starting job"@)
            &&& final_reports(es) == (if ts.last().phase == Phase::Finished {
                1nat
            } else {
                0nat
            })
            &&& forall|j: int| 0 <= j < ts.len() - 1 ==> #[trigger] ts[j].phase != Phase::Finished
            &&& forall|i: int|
                0 <= i < es.len() && is_final_report(#[trigger] es[i]) ==> final_report_form(m, es[i])
        }),
{
    let ts = job_run(m, replies);
    run_reports_keep_their_forms(m, replies);
    lemma_run_reports(m, replies);
    let t = job_step(m, replies[0]);
    assert(ts[0] == t);
    assert(run_effects(ts) == t.effects + run_effects(ts.drop_first()));
    assert(run_effects(ts)[0] == t.effects[0]);
}

/// Whether every running progress value among `es` lies between `lo` and `hi`,
/// and they never go back.
pub open spec fn rises_within(es: Seq<EffectView>, lo: int, hi: int) -> bool {
    &&& forall|i: int|
        0 <= i < es.len() && #[trigger] running_percent(es[i]) is Some ==> lo <= running_percent(
            es[i],
        )->0 <= hi
    &&& forall|i: int, j: int|
        0 <= i < j < es.len() && #[trigger] running_percent(es[i]) is Some
            && #[trigger] running_percent(es[j]) is Some ==> running_percent(es[i])->0
            <= running_percent(es[j])->0
}

proof fn lemma_rises_concat(a: Seq<EffectView>, b: Seq<EffectView>, lo: int, mid: int, hi: int)
    requires
        lo <= mid <= hi,
        rises_within(a, lo, mid),
        rises_within(b, mid, hi),
    ensures
        rises_within(a + b, lo, hi),
{
    let c = a + b;
    assert forall|i: int| 0 <= i < c.len() && #[trigger] running_percent(c[i]) is Some implies lo
        <= running_percent(c[i])->0 <= hi by {
        if i < a.len() {
            assert(c[i] == a[i]);
        } else {
            assert(c[i] == b[i - a.len()]);
        }
    }
    assert forall|i: int, j: int|
        0 <= i < j < c.len() && #[trigger] running_percent(c[i]) is Some
            && #[trigger] running_percent(c[j]) is Some implies running_percent(c[i])->0
        <= running_percent(c[j])->0 by {
        if j < a.len() {
            assert(c[i] == a[i] && c[j] == a[j]);
        } else if i >= a.len() {
            assert(c[i] == b[i - a.len()] && c[j] == b[j - a.len()]);
        } else {
            assert(c[i] == a[i] && c[j] == b[j - a.len()]);
        }
    }
}

proof fn lemma_floor_rises(m: JobMachineView, reply: Reply)
    requires
        accepts(m.phase, reply),
    ensures
        progress_floor(m.phase) <= progress_floor(job_step(m, reply).phase),
{
}

/// Over a whole run, the running progress a job reports never goes back: every
/// value lies between what the job had reported when the run began and what its
/// last phase stands for, and each is at least the one before it.
pub proof fn run_progress_never_goes_back(m: JobMachineView, replies: Seq<Reply>)
    ensures
        progress_floor(m.phase) <= progress_floor(
            phase_after(m, replies, job_run(m, replies).len() as int),
        ),
        rises_within(
            run_effects(job_run(m, replies)),
            progress_floor(m.phase) as int,
            progress_floor(phase_after(m, replies, job_run(m, replies).len() as int)) as int,
        ),
    decreases replies.len(),
{
    let ts = job_run(m, replies);
    if ts.len() > 0 {
        let t = job_step(m, replies[0]);
        let m1 = with_phase(m, t.phase);
        let rs = replies.drop_first();
        let rest = job_run(m1, rs);
        assert(ts == seq![t] + rest);
        assert(ts.drop_first() =~= rest);
        assert(ts[0] == t);
        running_progress_never_goes_back(m, replies[0]);
        lemma_floor_rises(m, replies[0]);
        run_progress_never_goes_back(m1, rs);
        assert(rises_within(t.effects, progress_floor(m.phase) as int, progress_floor(t.phase) as int));
        lemma_rises_concat(
            t.effects,
            run_effects(rest),
            progress_floor(m.phase) as int,
            progress_floor(t.phase) as int,
            progress_floor(phase_after(m1, rs, rest.len() as int)) as int,
        );
        if rest.len() > 0 {
            assert(ts[ts.len() - 1] == rest[rest.len() - 1]);
        }
        assert(phase_after(m, replies, ts.len() as int) == phase_after(m1, rs, rest.len() as int));
    } else {
        assert(run_effects(ts) =~= Seq::<EffectView>::empty());
    }
}


/// The three forms a job's final report takes: completed (`done`, 100%, naming the
/// output), failed (`error`, 0%, no output, with its message), or cancelled
/// (`cancel`, 100%, no output).
pub open spec fn final_report_form(m: JobMachineView, e: EffectView) -> bool {
    ||| e == completion(m)
    ||| e == cancellation(m)
    ||| e matches EffectView::Emit(ev) && ev.job_id == m.job_id && ev.stage == "error"@
        && ev.progress == Progress::Percent(0) && ev.status == "failed"@ && ev.output is None
}

proof fn lemma_step_reports(m: JobMachineView, reply: Reply)
    requires
        accepts(m.phase, reply),
    ensures
        forall|i: int|
            0 <= i < job_step(m, reply).effects.len() ==> {
                let e = #[trigger] job_step(m, reply).effects[i];
                &&& is_final_report(e) ==> final_report_form(m, e)
                &&& running_percent(e) matches Some(p) ==> 5 <= p <= 90
                &&& e is CreateParentDir ==> writes_output(job_step(m, reply).phase)
            },
{
    lemma_status_texts();
    let t = job_step(m, reply);
    assert forall|i: int| 0 <= i < t.effects.len() implies {
        let e = #[trigger] t.effects[i];
        &&& is_final_report(e) ==> final_report_form(m, e)
        &&& running_percent(e) matches Some(p) ==> 5 <= p <= 90
        &&& e is CreateParentDir ==> writes_output(t.phase)
    } by {
        assert(t.effects[i] == job_step(m, reply).effects[i]);
    }
}

/// What every effect of a run keeps, with the run's first machine `m`.
pub open spec fn effect_keeps(m: JobMachineView, e: EffectView) -> bool {
    &&& is_final_report(e) ==> final_report_form(m, e)
    &&& running_percent(e) matches Some(p) ==> 5 <= p <= 90
}

proof fn lemma_run_effects_keep(m: JobMachineView, replies: Seq<Reply>)
    ensures
        forall|i: int|
            0 <= i < run_effects(job_run(m, replies)).len() ==> effect_keeps(
                m,
                #[trigger] run_effects(job_run(m, replies))[i],
            ),
        forall|i: int|
            0 <= i < run_effects(job_run(m, replies)).len() && (#[trigger] run_effects(
                job_run(m, replies),
            )[i]) is CreateParentDir ==> exists|j: int|
                0 <= j < job_run(m, replies).len() && writes_output(
                    #[trigger] job_run(m, replies)[j].phase,
                ),
    decreases replies.len(),
{
    let ts = job_run(m, replies);
    if ts.len() > 0 {
        let t = job_step(m, replies[0]);
        let m1 = with_phase(m, t.phase);
        let rs = replies.drop_first();
        let rest = job_run(m1, rs);
        assert(ts == seq![t] + rest);
        assert(ts.drop_first() =~= rest);
        assert(ts[0] == t);
        lemma_step_reports(m, replies[0]);
        lemma_run_effects_keep(m1, rs);
        let es = run_effects(ts);
        let re = run_effects(rest);
        assert(es == t.effects + re);
        assert(completion(m1) == completion(m));
        assert(cancellation(m1) == cancellation(m));
        assert forall|i: int| 0 <= i < es.len() implies effect_keeps(m, #[trigger] es[i]) by {
            if i < t.effects.len() {
                assert(es[i] == t.effects[i]);
            } else {
                assert(es[i] == re[i - t.effects.len()]);
                assert(effect_keeps(m1, re[i - t.effects.len()]));
            }
        }
        assert forall|i: int| 0 <= i < es.len() && (#[trigger] es[i]) is CreateParentDir implies exists|
            j: int,
        | 0 <= j < ts.len() && writes_output(#[trigger] ts[j].phase) by {
            if i < t.effects.len() {
                assert(es[i] == t.effects[i]);
                assert(writes_output(ts[0].phase));
            } else {
                assert(es[i] == re[i - t.effects.len()]);
                let j = choose|j: int| 0 <= j < rest.len() && writes_output(#[trigger] rest[j].phase);
                assert(ts[j + 1] == rest[j]);
                assert(writes_output(ts[j + 1].phase));
            }
        }
    } else {
        assert(run_effects(ts) =~= Seq::<EffectView>::empty());
    }
}

/// Every final report of a run has one of the three final forms, and every running
/// report of whole percents lies between 5% (the start) and 90% (assembly).
pub proof fn run_reports_keep_their_forms(m: JobMachineView, replies: Seq<Reply>)
    ensures
        forall|i: int|
            0 <= i < run_effects(job_run(m, replies)).len() ==> {
                let e = #[trigger] run_effects(job_run(m, replies))[i];
                &&& is_final_report(e) ==> final_report_form(m, e)
                &&& running_percent(e) matches Some(p) ==> 5 <= p <= 90
            },
{
    lemma_run_effects_keep(m, replies);
    assert forall|i: int| 0 <= i < run_effects(job_run(m, replies)).len() implies {
        let e = #[trigger] run_effects(job_run(m, replies))[i];
        &&& is_final_report(e) ==> final_report_form(m, e)
        &&& running_percent(e) matches Some(p) ==> 5 <= p <= 90
    } by {
        assert(effect_keeps(m, run_effects(job_run(m, replies))[i]));
    }
}

/// The report a chunk worker publishes after the `done`-th of `total` chunks
/// stands for `0.40 + done / total * 0.45`: it lies between the 40% reported when
/// compression began and 85%, below the 90% of assembly, and it rises strictly with
/// the count of compressed chunks.
pub proof fn chunk_reports_rise(job_id: Seq<char>, d1: nat, d2: nat, total: nat)
    requires
        1 <= d1 < d2 <= total <= usize::MAX,
    ensures
        ({
            let a = progress_ratio(chunk_progress(job_id, d1, total).progress);
            let b = progress_ratio(chunk_progress(job_id, d2, total).progress);
            &&& a.1 > 0 && b.1 > 0
            &&& a.0 * b.1 < b.0 * a.1
            &&& ratio_le((40, 100), a) && ratio_le(a, (85, 100))
            &&& ratio_le((40, 100), b) && ratio_le(b, (85, 100))
            &&& ratio_le(b, progress_ratio(Progress::Percent(90)))
        }),
{
    let a = progress_ratio(chunk_progress(job_id, d1, total).progress);
    let b = progress_ratio(chunk_progress(job_id, d2, total).progress);
    let t = total as int;
    assert(a == (40 * t + 45 * d1, 100 * t));
    assert(b == (40 * t + 45 * d2, 100 * t));
    assert((40 * t + 45 * d1) * (100 * t) < (40 * t + 45 * d2) * (100 * t)) by (nonlinear_arith)
        requires
            d1 < d2,
            t >= 1,
    ;
    assert(40 * (100 * t) <= (40 * t + 45 * d1) * 100 && (40 * t + 45 * d1) * 100 <= 85 * (100 * t))
        by (nonlinear_arith)
        requires
            0 <= d1 <= t,
    ;
    assert(40 * (100 * t) <= (40 * t + 45 * d2) * 100 && (40 * t + 45 * d2) * 100 <= 85 * (100 * t))
        by (nonlinear_arith)
        requires
            0 <= d2 <= t,
    ;
}

/// A job cancelled at its first check (right after it reported that the merge
/// starts) ends with the cancellation report and runs no tool.
pub proof fn cancel_at_first_check(m: JobMachineView, replies: Seq<Reply>)
    requires
        m.phase == Phase::Start,
        !m.files.contains(m.output),
        replies.len() >= 2,
        replies[0] == Reply::Started,
        replies[1] == Reply::Cancelled(true),
    ensures
        job_run(m, replies).len() == 2,
        job_run(m, replies)[0].request == RequestView::CheckCancelled,
        job_run(m, replies)[1].request == RequestView::Stop,
        job_run(m, replies)[1].effects[0] == cancellation(m),
{
    let ts = job_run(m, replies);
    let t = job_step(m, replies[0]);
    let m1 = with_phase(m, t.phase);
    let rs = replies.drop_first();
    assert(rs[0] == replies[1]);
    let t1 = job_step(m1, rs[0]);
    let m2 = with_phase(m1, t1.phase);
    lemma_finished_run_is_empty(m2, rs.drop_first());
    assert(job_run(m1, rs) =~= seq![t1]);
    assert(ts =~= seq![t, t1]);
    assert(cancellation(m1) == cancellation(m));
}

/// A cancelled job never writes its output: when a step of its run cancels it,
/// that step is the last, no step of the run, before or at the cancellation, was
/// on the way to writing the output file, and the run never creates the output's
/// parent folder.
pub proof fn cancelled_run_never_writes_output(m: JobMachineView, replies: Seq<Reply>, k: int)
    requires
        0 <= k < job_run(m, replies).len(),
        is_cancellation(phase_after(m, replies, k), replies[k]),
    ensures
        job_run(m, replies).len() == k + 1,
        !writes_output(m.phase),
        forall|j: int|
            0 <= j < job_run(m, replies).len() ==> !writes_output(
                (#[trigger] job_run(m, replies)[j]).phase,
            ),
        forall|i: int|
            0 <= i < run_effects(job_run(m, replies)).len() ==> !((#[trigger] run_effects(
                job_run(m, replies),
            )[i]) is CreateParentDir),
    decreases k,
{
    lemma_cancelled_phases(m, replies, k);
    lemma_run_effects_keep(m, replies);
}

proof fn lemma_cancelled_phases(m: JobMachineView, replies: Seq<Reply>, k: int)
    requires
        0 <= k < job_run(m, replies).len(),
        is_cancellation(phase_after(m, replies, k), replies[k]),
    ensures
        job_run(m, replies).len() == k + 1,
        !writes_output(m.phase),
        forall|j: int|
            0 <= j < job_run(m, replies).len() ==> !writes_output(
                (#[trigger] job_run(m, replies)[j]).phase,
            ),
    decreases k,
{
    let ts = job_run(m, replies);
    lemma_run_reports(m, replies);
    let t = job_step(m, replies[0]);
    let m1 = with_phase(m, t.phase);
    let rs = replies.drop_first();
    let rest = job_run(m1, rs);
    assert(ts == seq![t] + rest);
    assert(ts[0] == t);
    if k == 0 {
        assert(t.phase == Phase::Finished);
        lemma_finished_run_is_empty(m1, rs);
    } else {
        assert(replies[k] == rs[k - 1]);
        assert(phase_after(m, replies, k) == phase_after(m1, rs, k - 1)) by {
            if k > 1 {
                assert(ts[k - 1] == rest[k - 2]);
            }
        }
        lemma_cancelled_phases(m1, rs, k - 1);
        assert(!writes_output(m.phase)) by {
            if writes_output(m.phase) {
                assert(t.phase == Phase::Finished);
                lemma_finished_run_is_empty(m1, rs);
            }
        }
        assert forall|j: int| 0 <= j < ts.len() implies !writes_output((#[trigger] ts[j]).phase) by {
            if j > 0 {
                assert(ts[j] == rest[j - 1]);
            }
        }
    }
}

/// A step that cancels the job (the cancellation flag found set at a check, or a
/// chunk skipped because the job was cancelled) ends it, and every report it
/// publishes is the cancellation report: stage `cancel`, status `cancelled`,
/// "Job cancelled", no output. There is exactly one such report, the step removes
/// the scratch directory, and it neither creates the output's folder nor leaves the
/// job table.
pub proof fn cancelling_step_reports_cancellation(m: JobMachineView, reply: Reply)
    requires
        is_cancellation(m.phase, reply),
    ensures
        ({
            let t = job_step(m, reply);
            &&& t.phase == Phase::Finished && t.request == RequestView::Stop
            &&& t.effects.len() > 0 && t.effects[0] is Emit
            &&& t.effects.contains(EffectView::RemoveDir(m.temp_dir))
            &&& forall|i: int|
                0 <= i < t.effects.len() ==> match #[trigger] t.effects[i] {
                    EffectView::Emit(ev) => i == 0 && ev.job_id == m.job_id && ev.stage == "cancel"@
                        && ev.status == "cancelled"@ && ev.message == "Job cancelled"@ && ev.output
                        is None && ev.progress == Progress::Percent(100),
                    EffectView::CreateParentDir(_) => false,
                    EffectView::FinishJob => false,
                    _ => true,
                }
        }),
{
    let t = job_step(m, reply);
    assert(t.effects[1] == EffectView::RemoveDir(m.temp_dir));
}

/// Over a whole run, the merged file is copied straight to the output only for
/// `NoCompression`, and its pages are counted for recompression only for the other
/// presets.
pub proof fn run_copies_only_without_compression(m: JobMachineView, replies: Seq<Reply>)
    ensures
        forall|j: int|
            0 <= j < job_run(m, replies).len() ==> ((#[trigger] job_run(m, replies)[j]).phase
                == Phase::Copying ==> m.preset == CompressionPreset::NoCompression) && (job_run(
                m,
                replies,
            )[j].phase == Phase::Counting ==> m.preset != CompressionPreset::NoCompression),
    decreases replies.len(),
{
    let ts = job_run(m, replies);
    if ts.len() > 0 {
        let t = job_step(m, replies[0]);
        let m1 = with_phase(m, t.phase);
        let rs = replies.drop_first();
        let rest = job_run(m1, rs);
        assert(ts == seq![t] + rest);
        copy_only_without_compression(m, replies[0]);
        run_copies_only_without_compression(m1, rs);
        assert forall|j: int| 0 <= j < ts.len() implies ((#[trigger] ts[j]).phase == Phase::Copying
            ==> m.preset == CompressionPreset::NoCompression) && (ts[j].phase == Phase::Counting
            ==> m.preset != CompressionPreset::NoCompression) by {
            if j > 0 {
                assert(ts[j] == rest[j - 1]);
            }
        }
    }
}

} // verus!
