//! Argument lists of the qpdf and Ghostscript runs, and how their exits are read.
use vstd::prelude::*;
use crate::presets::{GsSettings, GsSettingsView};
use crate::text::{
    chars_of, decimal, opt_view, parse_usize, parse_usize_chars, push_decimal, text, trim,
    trim_chars,
};

verus! {

/// The external program a run uses.
#[derive(Clone, Copy, Debug, PartialEq, Eq, Structural)]
pub enum Tool {
    Qpdf,
    Ghostscript,
}

/// One run of an external program.
#[derive(Debug)]
pub struct ToolRun {
    pub tool: Tool,
    pub args: Vec<String>,
    /// A file the run must leave behind for its result to count (checked by the caller).
    pub expected_output: Option<String>,
}

pub struct ToolRunView {
    pub tool: Tool,
    pub args: Seq<Seq<char>>,
    pub expected_output: Option<Seq<char>>,
}

pub open spec fn texts(v: Seq<String>) -> Seq<Seq<char>> {
    v.map_values(|s: String| s@)
}

impl View for ToolRun {
    type V = ToolRunView;

    open spec fn view(&self) -> ToolRunView {
        ToolRunView {
            tool: self.tool,
            args: texts(self.args@),
            expected_output: opt_view(self.expected_output),
        }
    }
}

/// What happened when a run was attempted.
#[derive(Debug)]
pub struct ExitReport {
    /// The process could be started and waited for.
    pub launched: bool,
    /// It exited with status 0.
    pub success: bool,
    /// Its exit code, when it has one.
    pub code: Option<i32>,
    /// Its standard output as text (empty when not captured).
    pub stdout: String,
    /// The run's expected output file exists afterwards.
    pub output_exists: bool,
}

/// qpdf reports success with exit code 0, and with 2 when it only warned.
pub open spec fn qpdf_accepted(r: ExitReport) -> bool {
    r.launched && (r.success || r.code == Some(2i32))
}

pub open spec fn gs_accepted(r: ExitReport) -> bool {
    r.launched && r.success
}

/// Whether a qpdf run succeeded (exit 0, or 2 for warnings only).
pub fn qpdf_ok(r: &ExitReport) -> (b: bool)
    ensures
        b == qpdf_accepted(*r),
{
    r.launched && (r.success || r.code == Some(2i32))
}

/// Whether a Ghostscript run succeeded (exit 0).
pub fn gs_ok(r: &ExitReport) -> (b: bool)
    ensures
        b == gs_accepted(*r),
{
    r.launched && r.success
}

/// Whether a merge run succeeded: the tool accepted it and the merged file exists.
pub fn merge_ok(tool: Tool, r: &ExitReport) -> (b: bool)
    ensures
        b == (match tool {
            Tool::Qpdf => qpdf_accepted(*r),
            Tool::Ghostscript => gs_accepted(*r),
        } && r.output_exists),
{
    let accepted = match tool {
        Tool::Qpdf => qpdf_ok(r),
        Tool::Ghostscript => gs_ok(r),
    };
    accepted && r.output_exists
}

/// The page count that `qpdf --show-npages` printed: its trimmed output read as a
/// number; nothing when the run failed or the text is no number.
pub open spec fn page_count_of(r: ExitReport) -> Option<nat> {
    if r.launched && r.success {
        parse_usize(trim(r.stdout@))
    } else {
        None
    }
}

/// Reads the page count from a `qpdf --show-npages` run.
pub fn page_count(r: &ExitReport) -> (n: Option<usize>)
    ensures
        match n {
            Some(k) => page_count_of(*r) == Some(k as nat),
            None => page_count_of(*r) is None,
        },
{
    if !(r.launched && r.success) {
        return None;
    }
    let chars = chars_of(r.stdout.as_str());
    let trimmed = trim_chars(&chars);
    parse_usize_chars(&trimmed)
}

pub open spec fn qpdf_pages_head() -> Seq<Seq<char>> {
    seq!["--warning-exit-0"@, "--empty"@, "--pages"@]
}

/// qpdf arguments that merge `files` into `out`.
pub open spec fn merge_qpdf_args(files: Seq<Seq<char>>, out: Seq<char>) -> Seq<Seq<char>> {
    qpdf_pages_head() + files + seq![
        "--"@,
        "--object-streams=generate"@,
        "--compress-streams=y"@,
        out,
    ]
}

/// Ghostscript arguments that merge `files` into `out`.
pub open spec fn merge_gs_args(files: Seq<Seq<char>>, out: Seq<char>) -> Seq<Seq<char>> {
    seq![
        "-sDEVICE=pdfwrite"@,
        "-dNOPAUSE"@,
        "-dBATCH"@,
        "-dPDFSTOPONERROR=false"@,
        "-sOutputFile="@ + out,
    ] + files
}

/// Ghostscript arguments that recompress `input` into `output` with `threads`
/// rendering threads.
pub open spec fn compress_args(
    input: Seq<char>,
    output: Seq<char>,
    s: GsSettingsView,
    threads: nat,
) -> Seq<Seq<char>> {
    seq![
        "-sDEVICE=pdfwrite"@,
        "-dCompatibilityLevel=1.5"@,
        "-dNOPAUSE"@,
        "-dBATCH"@,
        "-dQUIET"@,
        "-dPDFSTOPONERROR=false"@,
        "-dNumRenderingThreads="@ + decimal(threads),
        "-dPDFSETTINGS="@ + s.pdf_settings,
        "-dColorImageResolution="@ + s.color_res,
        "-dGrayImageResolution="@ + s.gray_res,
        "-dMonoImageResolution="@ + s.mono_res,
        "-dDownsampleColorImages=true"@,
        "-dDownsampleGrayImages=true"@,
        "-dDownsampleMonoImages=true"@,
        "-dColorImageDownsampleType="@ + s.downsample_type,
        "-dGrayImageDownsampleType="@ + s.downsample_type,
        "-dMonoImageDownsampleType="@ + s.downsample_type,
        "-sOutputFile="@ + output,
        input,
    ]
}

/// The page range text `start-end`.
pub open spec fn range_text(start: nat, end: nat) -> Seq<char> {
    decimal(start) + "-"@ + decimal(end)
}

/// qpdf arguments that copy pages `start..=end` of `src` into `dst`.
pub open spec fn split_args(src: Seq<char>, start: nat, end: nat, dst: Seq<char>) -> Seq<
    Seq<char>,
> {
    qpdf_pages_head() + seq![src, range_text(start, end), "--"@, dst]
}

/// qpdf arguments that concatenate `parts` into a linearized `out`.
pub open spec fn assemble_args(parts: Seq<Seq<char>>, out: Seq<char>) -> Seq<Seq<char>> {
    qpdf_pages_head() + parts + seq!["--"@, "--linearize"@, out]
}

/// qpdf arguments that print the page count of `path`.
pub open spec fn page_count_args(path: Seq<char>) -> Seq<Seq<char>> {
    seq!["--show-npages"@, path]
}


fn text2(a: &str, b: &str) -> (r: String)
    ensures
        r@ == a@ + b@,
{
    let mut r = String::from_str(a);
    r.append(b);
    r
}

fn push_qpdf_pages_head(v: &mut Vec<String>)
    ensures
        texts(final(v)@) == texts(old(v)@) + qpdf_pages_head(),
{
    v.push(text("--warning-exit-0"));
    v.push(text("--empty"));
    v.push(text("--pages"));
    assert(texts(v@) =~= texts(old(v)@) + qpdf_pages_head());
}

fn push_all(v: &mut Vec<String>, items: &Vec<String>)
    ensures
        texts(final(v)@) == texts(old(v)@) + texts(items@),
{
    let n = items.len();
    for i in 0..n
        invariant
            n == items@.len(),
            texts(v@) == texts(old(v)@) + texts(items@.take(i as int)),
    {
        let ghost prev = v@;
        let item = items[i].clone();
        v.push(item);
        assert(v@ == prev.push(items@[i as int]));
        assert(texts(v@) =~= texts(prev).push(items@[i as int]@));
        assert(texts(items@.take(i + 1)) =~= texts(items@.take(i as int)).push(items@[i as int]@));
        assert(texts(v@) =~= texts(old(v)@) + texts(items@.take(i + 1)));
    }
    assert(items@.take(n as int) == items@);
}

/// Builds the qpdf merge arguments.
pub fn merge_qpdf_arguments(files: &Vec<String>, out: &str) -> (args: Vec<String>)
    ensures
        texts(args@) == merge_qpdf_args(texts(files@), out@),
{
    let mut args: Vec<String> = Vec::new();
    push_qpdf_pages_head(&mut args);
    push_all(&mut args, files);
    args.push(text("--"));
    args.push(text("--object-streams=generate"));
    args.push(text("--compress-streams=y"));
    args.push(text(out));
    assert(texts(args@) =~= merge_qpdf_args(texts(files@), out@));
    args
}

/// Builds the Ghostscript merge arguments.
pub fn merge_gs_arguments(files: &Vec<String>, out: &str) -> (args: Vec<String>)
    ensures
        texts(args@) == merge_gs_args(texts(files@), out@),
{
    let mut args: Vec<String> = Vec::new();
    args.push(text("-sDEVICE=pdfwrite"));
    args.push(text("-dNOPAUSE"));
    args.push(text("-dBATCH"));
    args.push(text("-dPDFSTOPONERROR=false"));
    args.push(text2("-sOutputFile=", out));
    push_all(&mut args, files);
    assert(texts(args@) =~= merge_gs_args(texts(files@), out@));
    args
}

/// Builds the Ghostscript recompression arguments.
pub fn compress_arguments(input: &str, output: &str, s: &GsSettings, threads: usize) -> (args:
    Vec<String>)
    ensures
        texts(args@) == compress_args(input@, output@, s@, threads as nat),
{
    let mut args: Vec<String> = Vec::new();
    args.push(text("-sDEVICE=pdfwrite"));
    args.push(text("-dCompatibilityLevel=1.5"));
    args.push(text("-dNOPAUSE"));
    args.push(text("-dBATCH"));
    args.push(text("-dQUIET"));
    args.push(text("-dPDFSTOPONERROR=false"));
    let mut threads_arg = text("-dNumRenderingThreads=");
    push_decimal(&mut threads_arg, threads);
    args.push(threads_arg);
    args.push(text2("-dPDFSETTINGS=", s.pdf_settings));
    args.push(text2("-dColorImageResolution=", s.color_res));
    args.push(text2("-dGrayImageResolution=", s.gray_res));
    args.push(text2("-dMonoImageResolution=", s.mono_res));
    args.push(text("-dDownsampleColorImages=true"));
    args.push(text("-dDownsampleGrayImages=true"));
    args.push(text("-dDownsampleMonoImages=true"));
    args.push(text2("-dColorImageDownsampleType=", s.downsample_type));
    args.push(text2("-dGrayImageDownsampleType=", s.downsample_type));
    args.push(text2("-dMonoImageDownsampleType=", s.downsample_type));
    args.push(text2("-sOutputFile=", output));
    args.push(text(input));
    assert(texts(args@) =~= compress_args(input@, output@, s@, threads as nat));
    args
}

/// The page range text `start-end`.
pub fn range_string(start: usize, end: usize) -> (r: String)
    ensures
        r@ == range_text(start as nat, end as nat),
{
    let mut r = String::new();
    push_decimal(&mut r, start);
    r.append("-");
    push_decimal(&mut r, end);
    r
}

/// Builds the qpdf arguments that extract one page range.
pub fn split_arguments(src: &str, start: usize, end: usize, dst: &str) -> (args: Vec<String>)
    ensures
        texts(args@) == split_args(src@, start as nat, end as nat, dst@),
{
    let mut args: Vec<String> = Vec::new();
    push_qpdf_pages_head(&mut args);
    args.push(text(src));
    args.push(range_string(start, end));
    args.push(text("--"));
    args.push(text(dst));
    assert(texts(args@) =~= split_args(src@, start as nat, end as nat, dst@));
    args
}

/// Builds the qpdf arguments that assemble the compressed parts.
pub fn assemble_arguments(parts: &Vec<String>, out: &str) -> (args: Vec<String>)
    ensures
        texts(args@) == assemble_args(texts(parts@), out@),
{
    let mut args: Vec<String> = Vec::new();
    push_qpdf_pages_head(&mut args);
    push_all(&mut args, parts);
    args.push(text("--"));
    args.push(text("--linearize"));
    args.push(text(out));
    assert(texts(args@) =~= assemble_args(texts(parts@), out@));
    args
}

/// Builds the qpdf arguments that print a page count.
pub fn page_count_arguments(path: &str) -> (args: Vec<String>)
    ensures
        texts(args@) == page_count_args(path@),
{
    let mut args: Vec<String> = Vec::new();
    args.push(text("--show-npages"));
    args.push(text(path));
    assert(texts(args@) =~= page_count_args(path@));
    args
}

} // verus!
