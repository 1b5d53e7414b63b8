use pdftool::commands::{
    assemble_arguments, compress_arguments, gs_ok, merge_gs_arguments, merge_ok,
    merge_qpdf_arguments, page_count, page_count_arguments, qpdf_ok, range_string,
    split_arguments, ExitReport, Tool,
};
use pdftool::presets::{preset_to_gs_settings, CompressionPreset};

fn s(v: &[&str]) -> Vec<String> {
    v.iter().map(|x| x.to_string()).collect()
}

fn report(launched: bool, success: bool, code: Option<i32>, stdout: &str, exists: bool) -> ExitReport {
    ExitReport { launched, success, code, stdout: stdout.to_string(), output_exists: exists }
}

#[test]
fn qpdf_merge_arguments() {
    let args = merge_qpdf_arguments(&s(&["a.pdf", "b.pdf"]), "/t/merged.pdf");
    assert_eq!(
        args,
        s(&[
            "--warning-exit-0",
            "--empty",
            "--pages",
            "a.pdf",
            "b.pdf",
            "--",
            "--object-streams=generate",
            "--compress-streams=y",
            "/t/merged.pdf"
        ])
    );
}

#[test]
fn gs_merge_arguments() {
    let args = merge_gs_arguments(&s(&["a.pdf", "b.pdf"]), "/t/m.pdf");
    assert_eq!(
        args,
        s(&[
            "-sDEVICE=pdfwrite",
            "-dNOPAUSE",
            "-dBATCH",
            "-dPDFSTOPONERROR=false",
            "-sOutputFile=/t/m.pdf",
            "a.pdf",
            "b.pdf"
        ])
    );
}

#[test]
fn compress_arguments_for_aggressive() {
    let settings = preset_to_gs_settings(&CompressionPreset::Aggressive);
    let args = compress_arguments("in.pdf", "out.pdf", &settings, 12);
    assert_eq!(
        args,
        s(&[
            "-sDEVICE=pdfwrite",
            "-dCompatibilityLevel=1.5",
            "-dNOPAUSE",
            "-dBATCH",
            "-dQUIET",
            "-dPDFSTOPONERROR=false",
            "-dNumRenderingThreads=12",
            "-dPDFSETTINGS=/screen",
            "-dColorImageResolution=72",
            "-dGrayImageResolution=72",
            "-dMonoImageResolution=150",
            "-dDownsampleColorImages=true",
            "-dDownsampleGrayImages=true",
            "-dDownsampleMonoImages=true",
            "-dColorImageDownsampleType=/Subsample",
            "-dGrayImageDownsampleType=/Subsample",
            "-dMonoImageDownsampleType=/Subsample",
            "-sOutputFile=out.pdf",
            "in.pdf"
        ])
    );
}

#[test]
fn split_and_assemble_arguments() {
    assert_eq!(range_string(13, 24), "13-24");
    assert_eq!(
        split_arguments("m.pdf", 1, 10, "c/chunk_000.pdf"),
        s(&["--warning-exit-0", "--empty", "--pages", "m.pdf", "1-10", "--", "c/chunk_000.pdf"])
    );
    assert_eq!(
        assemble_arguments(&s(&["p0", "p1"]), "out.pdf"),
        s(&["--warning-exit-0", "--empty", "--pages", "p0", "p1", "--", "--linearize", "out.pdf"])
    );
    assert_eq!(page_count_arguments("m.pdf"), s(&["--show-npages", "m.pdf"]));
}

#[test]
fn exit_rules() {
    assert!(qpdf_ok(&report(true, true, Some(0), "", false)));
    assert!(qpdf_ok(&report(true, false, Some(2), "", false)));
    assert!(!qpdf_ok(&report(true, false, Some(3), "", false)));
    assert!(!qpdf_ok(&report(false, false, None, "", false)));
    assert!(gs_ok(&report(true, true, Some(0), "", false)));
    assert!(!gs_ok(&report(true, false, Some(2), "", false)));
    assert!(merge_ok(Tool::Qpdf, &report(true, false, Some(2), "", true)));
    assert!(!merge_ok(Tool::Qpdf, &report(true, true, Some(0), "", false)));
    assert!(!merge_ok(Tool::Ghostscript, &report(true, false, Some(2), "", true)));
    assert!(merge_ok(Tool::Ghostscript, &report(true, true, Some(0), "", true)));
}

#[test]
fn page_counts() {
    assert_eq!(page_count(&report(true, true, Some(0), " 12\n", false)), Some(12));
    assert_eq!(page_count(&report(true, true, Some(0), "+7", false)), Some(7));
    assert_eq!(page_count(&report(true, true, Some(0), "0", false)), Some(0));
    assert_eq!(page_count(&report(true, true, Some(0), "\u{a0}42\u{3000}", false)), Some(42));
    assert_eq!(page_count(&report(true, true, Some(0), "-1", false)), None);
    assert_eq!(page_count(&report(true, true, Some(0), "+", false)), None);
    assert_eq!(page_count(&report(true, true, Some(0), "", false)), None);
    assert_eq!(page_count(&report(true, true, Some(0), "1 2", false)), None);
    assert_eq!(page_count(&report(true, true, Some(0), "abc", false)), None);
    assert_eq!(page_count(&report(true, true, Some(0), "99999999999999999999999", false)), None);
    assert_eq!(page_count(&report(true, false, Some(2), "12", false)), None);
    assert_eq!(page_count(&report(false, false, None, "12", false)), None);
    let max = usize::MAX.to_string();
    assert_eq!(page_count(&report(true, true, Some(0), &max, false)), Some(usize::MAX));
}

#[test]
fn page_count_matches_std_parse() {
    for text in ["7", " 7 ", "\t8\r\n", "00012", "+0", "1_000", "٣", "18446744073709551616", "0x10"] {
        let expected: Option<usize> = text.trim().parse().ok();
        assert_eq!(page_count(&report(true, true, Some(0), text, false)), expected, "{text:?}");
    }
}

#[test]
fn preset_table() {
    let cases = [
        (CompressionPreset::NoCompression, ["/printer", "300", "300", "300", "/Average"]),
        (CompressionPreset::Low, ["/prepress", "300", "300", "300", "/Average"]),
        (CompressionPreset::Medium, ["/printer", "150", "150", "300", "/Average"]),
        (CompressionPreset::High, ["/ebook", "150", "150", "200", "/Average"]),
        (CompressionPreset::Aggressive, ["/screen", "72", "72", "150", "/Subsample"]),
    ];
    for (preset, expected) in cases {
        let g = preset_to_gs_settings(&preset);
        assert_eq!([g.pdf_settings, g.color_res, g.gray_res, g.mono_res, g.downsample_type], expected);
    }
}

#[test]
fn stronger_presets_lower_resolution() {
    let order = [
        CompressionPreset::NoCompression,
        CompressionPreset::Low,
        CompressionPreset::Medium,
        CompressionPreset::High,
        CompressionPreset::Aggressive,
    ];
    for (i, p) in order.iter().enumerate() {
        let sp = preset_to_gs_settings(p);
        for q in &order[i..] {
            let sq = preset_to_gs_settings(q);
            assert!(sq.color_res.parse::<usize>().unwrap() <= sp.color_res.parse::<usize>().unwrap());
            assert!(sq.gray_res.parse::<usize>().unwrap() <= sp.gray_res.parse::<usize>().unwrap());
            assert!(sq.mono_res.parse::<usize>().unwrap() <= sp.mono_res.parse::<usize>().unwrap());
        }
        let expected = if *p == CompressionPreset::Aggressive { "/Subsample" } else { "/Average" };
        assert_eq!(sp.downsample_type, expected);
    }
}
