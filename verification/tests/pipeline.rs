use pdftool::commands::{ExitReport, Tool};
use pdftool::jobs::PipelineState;
use pdftool::machine::{begin_job, chunk_outcome, chunk_progress_event, JobMachine, Step};
use pdftool::paths::PathStyle;
use pdftool::pipeline::{
    progress_fraction, ChunkOutcome, CreateJobRequest, Effect, InputFile, Phase, Progress, Reply, Request,
};
use pdftool::presets::CompressionPreset;

fn request(files: &[&str], output: &str, preset: CompressionPreset) -> CreateJobRequest {
    CreateJobRequest {
        files: files.iter().map(|f| InputFile { path: f.to_string() }).collect(),
        output_path: output.to_string(),
        preset,
    }
}

fn machine(files: &[&str], output: &str, preset: CompressionPreset, workers: usize) -> JobMachine {
    JobMachine::new("job1".to_string(), request(files, output, preset), workers, "/tmp", PathStyle::Unix)
}

fn ok_report() -> ExitReport {
    ExitReport { launched: true, success: true, code: Some(0), stdout: String::new(), output_exists: true }
}

fn failed_report() -> ExitReport {
    ExitReport { launched: true, success: false, code: Some(1), stdout: String::new(), output_exists: false }
}

fn pages_report(n: &str) -> ExitReport {
    ExitReport { launched: true, success: true, code: Some(0), stdout: n.to_string(), output_exists: false }
}

/// (stage, status, message, progress, output) of each emitted event.
fn events(step: &Step) -> Vec<(String, String, String, Progress, Option<String>)> {
    step.effects
        .iter()
        .filter_map(|e| match e {
            Effect::Emit(ev) => {
                assert_eq!(ev.job_id, "job1");
                Some((ev.stage.clone(), ev.status.clone(), ev.message.clone(), ev.progress, ev.output.clone()))
            }
            _ => None,
        })
        .collect()
}

fn step(m: &mut JobMachine, reply: Reply) -> Step {
    assert!(m.accepts(&reply));
    m.step(reply)
}

fn run_args(step: &Step) -> (Tool, Vec<String>, Option<String>) {
    match &step.request {
        Request::Run(r) => (r.tool, r.args.clone(), r.expected_output.clone()),
        other => panic!("expected a run, got {other:?}"),
    }
}

/// Drives a job up to its first merge request.
fn to_qpdf_merge(m: &mut JobMachine) {
    let s = step(m, Reply::Started);
    assert!(matches!(s.request, Request::CheckCancelled));
    let s = step(m, Reply::Cancelled(false));
    let (tool, args, expected) = run_args(&s);
    assert_eq!(tool, Tool::Qpdf);
    assert_eq!(expected.as_deref(), Some("/tmp/pdftool-job1/merged.pdf"));
    assert_eq!(args[3], "a.pdf");
}

#[test]
fn output_matching_an_input_is_refused() {
    let mut m = machine(&["a.pdf", "out.pdf"], "out.pdf", CompressionPreset::High, 4);
    let s = step(&mut m, Reply::Started);
    assert!(matches!(s.request, Request::Stop));
    assert_eq!(s.effects.len(), 2);
    let ev = events(&s);
    assert_eq!(ev[0].0, "init");
    assert_eq!(ev[0].3, Progress::Percent(5));
    assert_eq!(ev[1].0, "error");
    assert_eq!(ev[1].1, "failed");
    assert_eq!(ev[1].2, "Output path matches an input file. Choose a different output name.");
    assert_eq!(m.phase(), Phase::Finished);
}

#[test]
fn start_creates_scratch_dir_and_checks_cancellation() {
    let mut m = machine(&["a.pdf"], "out.pdf", CompressionPreset::High, 4);
    let s = step(&mut m, Reply::Started);
    assert!(matches!(&s.effects[1], Effect::CreateDir(d) if d == "/tmp/pdftool-job1"));
    let ev = events(&s);
    assert_eq!(ev[1], ("merge".to_string(), "running".to_string(), "Merging files…".to_string(), Progress::Percent(10), None));
    assert!(matches!(s.request, Request::CheckCancelled));
}

#[test]
fn cancelled_before_merge() {
    let mut m = machine(&["a.pdf"], "out.pdf", CompressionPreset::High, 4);
    step(&mut m, Reply::Started);
    let s = step(&mut m, Reply::Cancelled(true));
    let ev = events(&s);
    assert_eq!(ev, vec![("cancel".to_string(), "cancelled".to_string(), "Job cancelled".to_string(), Progress::Percent(100), None)]);
    assert!(matches!(&s.effects[1], Effect::RemoveDir(d) if d == "/tmp/pdftool-job1"));
    assert!(matches!(s.request, Request::Stop));
}

#[test]
fn copy_through_without_compression() {
    let mut m = machine(&["a.pdf", "b.pdf"], "/o/out.pdf", CompressionPreset::NoCompression, 4);
    to_qpdf_merge(&mut m);
    let s = step(&mut m, Reply::Ran(ok_report()));
    assert_eq!(events(&s)[0].2, "Merge complete");
    assert_eq!(events(&s)[0].3, Progress::Percent(20));
    assert!(matches!(&s.effects[1], Effect::CreateParentDir(p) if p == "/o/out.pdf"));
    assert!(matches!(&s.request, Request::Copy { from, to } if from == "/tmp/pdftool-job1/merged.pdf" && to == "/o/out.pdf"));
    let s = step(&mut m, Reply::Copied(Ok(())));
    let ev = events(&s);
    assert_eq!(ev[0], ("done".to_string(), "completed".to_string(), "Done".to_string(), Progress::Percent(100), Some("/o/out.pdf".to_string())));
    assert!(matches!(s.effects[1], Effect::FinishJob));
    assert!(matches!(&s.effects[2], Effect::RemoveDir(d) if d == "/tmp/pdftool-job1"));
    assert!(matches!(s.request, Request::Stop));
}

#[test]
fn copy_failure_is_reported() {
    let mut m = machine(&["a.pdf"], "out.pdf", CompressionPreset::NoCompression, 4);
    to_qpdf_merge(&mut m);
    step(&mut m, Reply::Ran(ok_report()));
    let s = step(&mut m, Reply::Copied(Err("disk full".to_string())));
    assert_eq!(events(&s)[0].2, "Save failed: disk full");
    assert!(matches!(s.effects[1], Effect::FinishJob));
}

#[test]
fn ghostscript_fallback_then_failure() {
    let mut m = machine(&["a.pdf"], "out.pdf", CompressionPreset::High, 4);
    to_qpdf_merge(&mut m);
    let s = step(&mut m, Reply::Ran(ExitReport { output_exists: false, ..ok_report() }));
    assert_eq!(events(&s)[0].2, "Fast merge failed — retrying with Ghostscript…");
    assert_eq!(events(&s)[0].3, Progress::Percent(12));
    let (tool, args, expected) = run_args(&s);
    assert_eq!(tool, Tool::Ghostscript);
    assert_eq!(args[4], "-sOutputFile=/tmp/pdftool-job1/merged.pdf");
    assert_eq!(expected.as_deref(), Some("/tmp/pdftool-job1/merged.pdf"));
    let s = step(&mut m, Reply::Ran(failed_report()));
    assert_eq!(events(&s)[0].2, "Merge failed. The input PDF may be too corrupted.");
    assert!(matches!(s.effects[1], Effect::RemoveDir(_)));
    assert_eq!(s.effects.len(), 2);
    assert!(matches!(s.request, Request::Stop));
}

#[test]
fn qpdf_warning_exit_counts_as_merged() {
    let mut m = machine(&["a.pdf"], "out.pdf", CompressionPreset::High, 4);
    to_qpdf_merge(&mut m);
    let warned = ExitReport { launched: true, success: false, code: Some(2), stdout: String::new(), output_exists: true };
    let s = step(&mut m, Reply::Ran(warned));
    let (tool, args, _) = run_args(&s);
    assert_eq!(tool, Tool::Qpdf);
    assert_eq!(args, vec!["--show-npages".to_string(), "/tmp/pdftool-job1/merged.pdf".to_string()]);
}

#[test]
fn unreadable_page_count_fails() {
    for out in ["", "0", "many"] {
        let mut m = machine(&["a.pdf"], "out.pdf", CompressionPreset::High, 4);
        to_qpdf_merge(&mut m);
        step(&mut m, Reply::Ran(ok_report()));
        let s = step(&mut m, Reply::Ran(pages_report(out)));
        assert_eq!(events(&s)[0].2, "Could not read page count.");
        assert!(matches!(s.request, Request::Stop));
    }
}

#[test]
fn small_document_single_pass() {
    let mut m = machine(&["a.pdf"], "out.pdf", CompressionPreset::Medium, 4);
    to_qpdf_merge(&mut m);
    step(&mut m, Reply::Ran(ok_report()));
    let s = step(&mut m, Reply::Ran(pages_report("12\n")));
    assert_eq!(events(&s)[0].2, "Document is small (12 pages) — compressing in one pass…");
    assert_eq!(events(&s)[0].3, Progress::Percent(30));
    assert!(matches!(s.request, Request::CheckCancelled));
    let s = step(&mut m, Reply::Cancelled(false));
    assert!(matches!(&s.effects[0], Effect::CreateParentDir(p) if p == "out.pdf"));
    let (tool, args, _) = run_args(&s);
    assert_eq!(tool, Tool::Ghostscript);
    assert_eq!(args[6], "-dNumRenderingThreads=4");
    assert_eq!(args[7], "-dPDFSETTINGS=/printer");
    assert_eq!(args[17], "-sOutputFile=out.pdf");
    assert_eq!(args[18], "/tmp/pdftool-job1/merged.pdf");
    let s = step(&mut m, Reply::Ran(failed_report()));
    assert_eq!(events(&s)[0].2, "Compression failed.");
    assert!(matches!(s.effects[1], Effect::FinishJob));
}

/// Drives a 100-page, 4-worker job to its split request.
fn to_split(m: &mut JobMachine) -> Step {
    to_qpdf_merge(m);
    step(m, Reply::Ran(ok_report()));
    step(m, Reply::Ran(pages_report("100")))
}

#[test]
fn large_document_is_split() {
    let mut m = machine(&["a.pdf"], "out.pdf", CompressionPreset::High, 4);
    let s = to_split(&mut m);
    assert!(matches!(&s.effects[0], Effect::CreateDir(d) if d == "/tmp/pdftool-job1/chunks"));
    assert!(matches!(&s.effects[1], Effect::CreateDir(d) if d == "/tmp/pdftool-job1/comp"));
    assert_eq!(events(&s)[0].2, "Splitting into 4 chunks (25 pages each)…");
    assert_eq!(events(&s)[0].3, Progress::Percent(25));
    match &s.request {
        Request::Split { runs, workers } => {
            assert_eq!(*workers, 4);
            assert_eq!(runs.len(), 4);
            assert_eq!(runs[1].args[4], "26-50");
            assert_eq!(runs[3].args[6], "/tmp/pdftool-job1/chunks/chunk_003.pdf");
        }
        other => panic!("{other:?}"),
    }
    assert_eq!(m.phase(), Phase::Splitting { chunks: 4 });
}

#[test]
fn first_failed_split_is_reported() {
    let mut m = machine(&["a.pdf"], "out.pdf", CompressionPreset::High, 4);
    to_split(&mut m);
    let s = step(&mut m, Reply::SplitDone(vec![Some(ok_report()), None, Some(failed_report()), Some(ok_report())]));
    assert_eq!(events(&s)[0].2, "Split failed for chunk 1.");
    assert!(matches!(s.request, Request::Stop));
}

#[test]
fn chunk_compression_and_assembly() {
    let mut m = machine(&["a.pdf"], "out.pdf", CompressionPreset::Low, 4);
    to_split(&mut m);
    let warned = ExitReport { launched: true, success: false, code: Some(2), stdout: String::new(), output_exists: false };
    let s = step(&mut m, Reply::SplitDone(vec![Some(ok_report()), Some(warned), Some(ok_report()), Some(ok_report())]));
    assert!(s.effects.is_empty());
    assert!(matches!(s.request, Request::CheckCancelled));
    let s = step(&mut m, Reply::Cancelled(false));
    assert_eq!(events(&s)[0].2, "Compressing chunks in parallel…");
    assert_eq!(events(&s)[0].3, Progress::Percent(40));
    match &s.request {
        Request::CompressChunks { runs, workers } => {
            assert_eq!(*workers, 4);
            assert_eq!(runs.len(), 4);
            assert_eq!(runs[2].tool, Tool::Ghostscript);
            assert_eq!(runs[2].args[6], "-dNumRenderingThreads=1");
            assert_eq!(runs[2].args[7], "-dPDFSETTINGS=/prepress");
            assert_eq!(runs[2].args[17], "-sOutputFile=/tmp/pdftool-job1/comp/comp_002.pdf");
            assert_eq!(runs[2].args[18], "/tmp/pdftool-job1/chunks/chunk_002.pdf");
        }
        other => panic!("{other:?}"),
    }
    let s = step(&mut m, Reply::ChunksDone(vec![ChunkOutcome::Compressed; 4]));
    assert_eq!(events(&s)[0].2, "Assembling final PDF…");
    assert_eq!(events(&s)[0].3, Progress::Percent(90));
    assert!(matches!(&s.effects[1], Effect::CreateParentDir(p) if p == "out.pdf"));
    let (tool, args, _) = run_args(&s);
    assert_eq!(tool, Tool::Qpdf);
    assert_eq!(
        args,
        vec![
            "--warning-exit-0", "--empty", "--pages",
            "/tmp/pdftool-job1/comp/comp_000.pdf",
            "/tmp/pdftool-job1/comp/comp_001.pdf",
            "/tmp/pdftool-job1/comp/comp_002.pdf",
            "/tmp/pdftool-job1/comp/comp_003.pdf",
            "--", "--linearize", "out.pdf",
        ]
    );
    let warned = ExitReport { launched: true, success: false, code: Some(2), stdout: String::new(), output_exists: false };
    let s = step(&mut m, Reply::Ran(warned));
    assert_eq!(events(&s)[0].1, "completed");
    assert_eq!(events(&s)[0].4.as_deref(), Some("out.pdf"));
    assert!(matches!(s.effects[1], Effect::FinishJob));
    assert!(matches!(s.request, Request::Stop));
    assert_eq!(m.phase(), Phase::Finished);
}

#[test]
fn assembly_failure() {
    let mut m = machine(&["a.pdf"], "out.pdf", CompressionPreset::Low, 4);
    to_split(&mut m);
    step(&mut m, Reply::SplitDone(vec![Some(ok_report()), Some(ok_report()), Some(ok_report()), Some(ok_report())]));
    step(&mut m, Reply::Cancelled(false));
    step(&mut m, Reply::ChunksDone(vec![ChunkOutcome::Compressed; 4]));
    let s = step(&mut m, Reply::Ran(failed_report()));
    assert_eq!(events(&s)[0].2, "Final assembly failed.");
    assert!(matches!(s.effects[1], Effect::FinishJob));
}

#[test]
fn chunk_failure_and_cancellation() {
    let mut m = machine(&["a.pdf"], "out.pdf", CompressionPreset::Low, 4);
    to_split(&mut m);
    step(&mut m, Reply::SplitDone(vec![Some(ok_report()), Some(ok_report()), Some(ok_report()), Some(ok_report())]));
    step(&mut m, Reply::Cancelled(false));
    let s = step(&mut m, Reply::ChunksDone(vec![
        ChunkOutcome::Compressed,
        ChunkOutcome::Failed,
        ChunkOutcome::Cancelled,
        ChunkOutcome::Compressed,
    ]));
    assert_eq!(events(&s)[0].2, "Compression error: Chunk 1 compression failed");
    assert_eq!(events(&s)[0].1, "failed");

    let mut m = machine(&["a.pdf"], "out.pdf", CompressionPreset::Low, 4);
    to_split(&mut m);
    step(&mut m, Reply::SplitDone(vec![Some(ok_report()), Some(ok_report()), Some(ok_report()), Some(ok_report())]));
    step(&mut m, Reply::Cancelled(false));
    let s = step(&mut m, Reply::ChunksDone(vec![
        ChunkOutcome::Compressed,
        ChunkOutcome::Cancelled,
        ChunkOutcome::Failed,
        ChunkOutcome::Compressed,
    ]));
    assert_eq!(events(&s)[0].1, "cancelled");
    assert!(matches!(s.effects[1], Effect::RemoveDir(_)));
}

#[test]
fn cancelled_after_split() {
    let mut m = machine(&["a.pdf"], "out.pdf", CompressionPreset::Low, 4);
    to_split(&mut m);
    step(&mut m, Reply::SplitDone(vec![Some(ok_report()), Some(ok_report()), Some(ok_report()), Some(ok_report())]));
    let s = step(&mut m, Reply::Cancelled(true));
    assert_eq!(events(&s)[0].1, "cancelled");
}

#[test]
fn chunk_progress_reports() {
    let e = chunk_progress_event("job1", 3, 8);
    assert_eq!(e.message, "Compressed 3/8");
    assert_eq!(e.stage, "compress");
    assert_eq!(e.status, "running");
    assert_eq!(e.progress, Progress::Chunks { done: 3, total: 8 });
    assert_eq!(e.output, None);
    assert_eq!(chunk_outcome(&ok_report()), ChunkOutcome::Compressed);
    let warned = ExitReport { launched: true, success: false, code: Some(2), stdout: String::new(), output_exists: false };
    assert_eq!(chunk_outcome(&warned), ChunkOutcome::Failed);
}

#[test]
fn replies_of_the_wrong_kind_are_not_accepted() {
    let mut m = machine(&["a.pdf"], "out.pdf", CompressionPreset::Low, 4);
    assert!(!m.accepts(&Reply::Cancelled(false)));
    step(&mut m, Reply::Started);
    assert!(!m.accepts(&Reply::Started));
    assert!(m.accepts(&Reply::Cancelled(false)));
    let mut m = machine(&["a.pdf"], "out.pdf", CompressionPreset::Low, 4);
    to_split(&mut m);
    assert!(!m.accepts(&Reply::SplitDone(vec![None])));
}

#[test]
fn every_job_ends_with_one_final_report() {
    // A full successful run: exactly one terminal event, in the last step.
    let mut m = machine(&["a.pdf"], "out.pdf", CompressionPreset::High, 1);
    let replies = vec![
        Reply::Started,
        Reply::Cancelled(false),
        Reply::Ran(ok_report()),
        Reply::Ran(pages_report("3")),
        Reply::Cancelled(false),
        Reply::Ran(ok_report()),
    ];
    let mut finals = 0;
    let mut steps = 0;
    for r in replies {
        let s = step(&mut m, r);
        steps += 1;
        let terminal = events(&s).iter().filter(|e| e.1 != "running").count();
        finals += terminal;
        assert_eq!(terminal == 1, matches!(s.request, Request::Stop));
    }
    assert_eq!(finals, 1);
    assert!(steps <= 10);
    assert_eq!(m.phase(), Phase::Finished);
}

#[test]
fn begin_job_registers_a_fresh_v4_id() {
    let mut state = PipelineState::new();
    let (id, m) = begin_job(&mut state, request(&["a.pdf"], "out.pdf", CompressionPreset::High), 2, "/tmp", PathStyle::Unix);
    assert_eq!(id.len(), 36);
    for (i, c) in id.chars().enumerate() {
        if [8, 13, 18, 23].contains(&i) {
            assert_eq!(c, '-');
        } else {
            assert!(c.is_ascii_hexdigit() && !c.is_ascii_uppercase());
        }
    }
    assert_eq!(id.chars().nth(14), Some('4'));
    assert!(matches!(id.chars().nth(19), Some('8' | '9' | 'a' | 'b')));
    assert_eq!(m.job_id(), &id);
    assert!(!state.is_cancelled(&id));
    state.cancel_job(&id);
    assert!(state.is_cancelled(&id));
    let (id2, _) = begin_job(&mut state, request(&["a.pdf"], "out.pdf", CompressionPreset::High), 2, "/tmp", PathStyle::Unix);
    assert_ne!(id, id2);
}

#[test]
fn windows_scratch_paths() {
    let mut m = JobMachine::new(
        "job1".to_string(),
        request(&["a.pdf"], "out.pdf", CompressionPreset::High),
        4,
        "C:\\Temp\\",
        PathStyle::Windows,
    );
    let s = step(&mut m, Reply::Started);
    assert!(matches!(&s.effects[1], Effect::CreateDir(d) if d == "C:\\Temp\\pdftool-job1"));
    let s = step(&mut m, Reply::Cancelled(false));
    let (_, _, expected) = run_args(&s);
    assert_eq!(expected.as_deref(), Some("C:\\Temp\\pdftool-job1\\merged.pdf"));
}

#[test]
fn running_progress_rises() {
    let mut m = machine(&["a.pdf"], "out.pdf", CompressionPreset::High, 4);
    let replies = vec![
        Reply::Started,
        Reply::Cancelled(false),
        Reply::Ran(failed_report()),
        Reply::Ran(ok_report()),
        Reply::Ran(pages_report("100")),
        Reply::SplitDone(vec![Some(ok_report()), Some(ok_report()), Some(ok_report()), Some(ok_report())]),
        Reply::Cancelled(false),
        Reply::ChunksDone(vec![ChunkOutcome::Compressed; 4]),
        Reply::Ran(ok_report()),
    ];
    let mut seen = Vec::new();
    for r in replies {
        let s = step(&mut m, r);
        for e in events(&s) {
            if e.1 == "running" {
                if let Progress::Percent(p) = e.3 {
                    seen.push(p);
                }
            }
        }
    }
    assert_eq!(seen, vec![5, 10, 12, 20, 25, 40, 90]);
    assert_eq!(m.phase(), Phase::Finished);
}

#[test]
fn assembly_keeps_chunk_order_past_a_thousand_chunks() {
    let mut m = machine(&["a.pdf"], "out.pdf", CompressionPreset::Low, 1001);
    step(&mut m, Reply::Started);
    step(&mut m, Reply::Cancelled(false));
    step(&mut m, Reply::Ran(ok_report()));
    let s = step(&mut m, Reply::Ran(pages_report("10010")));
    let n = match &s.request {
        Request::Split { runs, .. } => runs.len(),
        other => panic!("{other:?}"),
    };
    assert_eq!(n, 1001);
    step(&mut m, Reply::SplitDone((0..n).map(|_| Some(ok_report())).collect()));
    step(&mut m, Reply::Cancelled(false));
    let s = step(&mut m, Reply::ChunksDone(vec![ChunkOutcome::Compressed; n]));
    let (tool, args, _) = run_args(&s);
    assert_eq!(tool, Tool::Qpdf);
    assert_eq!(args.len(), 3 + n + 3);
    for i in 0..n {
        assert_eq!(args[3 + i], format!("/tmp/pdftool-job1/comp/comp_{i:03}.pdf"));
    }
    assert_eq!(args[3 + 101], "/tmp/pdftool-job1/comp/comp_101.pdf");
    assert_eq!(args[3 + 1000], "/tmp/pdftool-job1/comp/comp_1000.pdf");
    assert_eq!(args[3 + n + 2], "out.pdf");
}

#[test]
fn whole_run_reports_start_then_one_final() {
    let mut m = machine(&["a.pdf", "b.pdf"], "out.pdf", CompressionPreset::NoCompression, 2);
    let replies = vec![
        Reply::Started,
        Reply::Cancelled(false),
        Reply::Ran(ok_report()),
        Reply::Copied(Ok(())),
    ];
    let mut all = Vec::new();
    for r in replies {
        let s = step(&mut m, r);
        all.extend(events(&s));
    }
    assert_eq!(all[0].0, "init");
    assert_eq!(all[0].3, Progress::Percent(5));
    let finals: Vec<_> = all.iter().filter(|e| e.1 == "completed" || e.1 == "failed" || e.1 == "cancelled").collect();
    assert_eq!(finals.len(), 1);
    assert_eq!(finals[0].1, "completed");
    assert_eq!(m.phase(), Phase::Finished);
}

#[test]
fn cancelled_run_writes_no_output() {
    let mut m = machine(&["a.pdf"], "out.pdf", CompressionPreset::High, 4);
    let replies = vec![
        Reply::Started,
        Reply::Cancelled(false),
        Reply::Ran(ok_report()),
        Reply::Ran(pages_report("100")),
        Reply::SplitDone(vec![Some(ok_report()), Some(ok_report()), Some(ok_report()), Some(ok_report())]),
        Reply::Cancelled(true),
    ];
    for r in replies {
        let s = step(&mut m, r);
        match &s.request {
            Request::Run(run) => assert!(!run.args.iter().any(|a| a.contains("out.pdf"))),
            Request::Copy { .. } => panic!("a cancelled job copies nothing"),
            _ => {}
        }
    }
    assert_eq!(m.phase(), Phase::Finished);
}

#[test]
fn progress_fractions() {
    assert_eq!(progress_fraction(&Progress::Percent(40)), (40, 100));
    let share = |d: usize, t: usize| {
        let (n, q) = progress_fraction(&Progress::Chunks { done: d, total: t });
        n as f64 / q as f64
    };
    assert!((share(1, 4) - (0.40 + 0.25 * 0.45)).abs() < 1e-12);
    assert!((share(4, 4) - 0.85).abs() < 1e-12);
    let mut last = 0.40;
    for d in 1..=7 {
        let s = share(d, 7);
        assert!(s > last && s <= 0.85);
        last = s;
    }
    assert_eq!(progress_fraction(&Progress::Chunks { done: usize::MAX, total: usize::MAX }).1, 100 * usize::MAX as u128);
    let e = chunk_progress_event("j", 3, 4);
    assert_eq!(progress_fraction(&e.progress), (40 * 4 + 45 * 3, 400));
}
