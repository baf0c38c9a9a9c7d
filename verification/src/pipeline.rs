//! The pipeline of one session, run step by step: the driver performs what a
//! step asks for and reports the outcome as the next event.

use crate::model::{
    begin, carried_out, consistent, converted_status, converting_status, queued_status,
    complete_status, current, elapsed, estimated_total, failed_result, finish, ignore,
    image_result, in_progress, initial, next, on_converter_exit, on_image,
    on_page, on_probed, on_resume, page_candidate, page_label, recognize_base,
    recognized_result, recognizing_status, text_with_page, ArtifactKind, ArtifactView,
    CommandView, EventView, Phase, PipelineView, RecognitionView, StepView, ToolExitView,
};
use crate::progress::{clone_results, result_views, OcrResult, ProgressStatus, ProgressTracker};
use crate::text::{format_decimal, format_zero_padded, join_path, trim};
use crate::token::{is_token, random_token};
use vstd::prelude::*;

verus! {

/// An uploaded file that was accepted for processing.
#[derive(Debug, PartialEq, Eq)]
pub struct Artifact {
    /// Where the upload was stored.
    pub path: String,
    /// The name under which it was uploaded.
    pub filename: String,
    pub kind: ArtifactKind,
}

impl View for Artifact {
    type V = ArtifactView;

    open spec fn view(&self) -> ArtifactView {
        ArtifactView { path: self.path@, filename: self.filename@, kind: self.kind }
    }
}

/// The files of a batch as mathematical values, in their order.
pub open spec fn artifact_views(artifacts: Seq<Artifact>) -> Seq<ArtifactView> {
    artifacts.map_values(|a: Artifact| a@)
}

/// A list of strings as a mathematical value.
pub open spec fn texts(strings: Seq<String>) -> Seq<Seq<char>> {
    strings.map_values(|s: String| s@)
}

/// How a run of the converter ended.
#[derive(Debug, PartialEq, Eq)]
pub enum ToolExit {
    /// The program could not be started; the system's message.
    NotRun(String),
    /// The program exited with a failure; what it wrote to standard error.
    Failed(String),
    Succeeded,
}

impl View for ToolExit {
    type V = ToolExitView;

    open spec fn view(&self) -> ToolExitView {
        match self {
            ToolExit::NotRun(e) => ToolExitView::NotRun(e@),
            ToolExit::Failed(e) => ToolExitView::Failed(e@),
            ToolExit::Succeeded => ToolExitView::Succeeded,
        }
    }
}

/// How a run of the recognizer ended.
#[derive(Debug, PartialEq, Eq)]
pub enum Recognition {
    /// The program could not be started; the system's message.
    NotRun(String),
    /// The program exited with a failure; what it wrote to standard error.
    Failed(String),
    /// The program succeeded but its output could not be read; the system's
    /// message.
    Unreadable(String),
    /// The text that the program wrote, as it is.
    Text(String),
}

impl View for Recognition {
    type V = RecognitionView;

    open spec fn view(&self) -> RecognitionView {
        match self {
            Recognition::NotRun(e) => RecognitionView::NotRun(e@),
            Recognition::Failed(e) => RecognitionView::Failed(e@),
            Recognition::Unreadable(e) => RecognitionView::Unreadable(e@),
            Recognition::Text(t) => RecognitionView::Text(t@),
        }
    }
}

/// What the driver reports to the pipeline.
#[derive(Debug, PartialEq, Eq)]
pub enum Event {
    /// The background task has started.
    Start,
    /// The converter has ended.
    ConverterExited(ToolExit),
    /// Whether the file of the last `Probe` exists.
    Probed(bool),
    /// The answer to `Continue`.
    Resume,
    /// The recognizer has ended.
    Recognized(Recognition),
}

impl View for Event {
    type V = EventView;

    open spec fn view(&self) -> EventView {
        match self {
            Event::Start => EventView::Start,
            Event::ConverterExited(exit) => EventView::ConverterExited(exit@),
            Event::Probed(found) => EventView::Probed(*found),
            Event::Resume => EventView::Resume,
            Event::Recognized(outcome) => EventView::Recognized(outcome@),
        }
    }
}

/// What the pipeline asks of the driver.
#[derive(Debug, PartialEq, Eq)]
pub enum Command {
    /// Run the converter on `source`; it writes page images whose names begin
    /// with `output_prefix`. Answer with `ConverterExited`.
    Convert { source: String, output_prefix: String },
    /// Look whether the file `path` exists. Answer with `Probed`.
    Probe { path: String },
    /// Run the recognizer on `image`; it writes its text to `output_base`
    /// with the extension `.txt`. Read that file, delete it and answer with
    /// `Recognized`.
    Recognize { image: String, output_base: String },
    /// Call again at once, with `Resume`.
    Continue,
    /// The session is complete; stop.
    Finished,
    /// The event was not the one that the pipeline waits for; nothing
    /// changed.
    Ignored,
}

impl View for Command {
    type V = CommandView;

    open spec fn view(&self) -> CommandView {
        match self {
            Command::Convert { source, output_prefix } => CommandView::Convert {
                source: source@,
                output_prefix: output_prefix@,
            },
            Command::Probe { path } => CommandView::Probe { path: path@ },
            Command::Recognize { image, output_base } => CommandView::Recognize {
                image: image@,
                output_base: output_base@,
            },
            Command::Continue => CommandView::Continue,
            Command::Finished => CommandView::Finished,
            Command::Ignored => CommandView::Ignored,
        }
    }
}

/// What one step hands to the driver.
#[derive(Debug, PartialEq, Eq)]
pub struct Step {
    /// Files to delete before anything else; a file that cannot be deleted
    /// is passed over.
    pub remove: Vec<String>,
    pub command: Command,
    /// An estimate of the time that recognition of the current document
    /// will take in all, in milliseconds; advisory.
    pub estimate_millis: Option<u128>,
}

impl View for Step {
    type V = StepView;

    open spec fn view(&self) -> StepView {
        StepView {
            remove: texts(self.remove@),
            command: self.command@,
            estimate_millis: self.estimate_millis,
        }
    }
}

/// The snapshot of a session that was accepted and has not started yet.
pub fn queued_snapshot() -> (status: ProgressStatus)
    ensures
        status@ == queued_status(),
{
    let status = ProgressStatus {
        stage: String::from_str("Queued"),
        current: 0,
        total: 0,
        message: String::from_str("Waiting to start"),
        complete: false,
        results: Vec::new(),
    };
    assert(status@ =~= queued_status());
    status
}

/// The snapshot of a document whose conversion begins.
pub fn converting_snapshot(filename: &str) -> (status: ProgressStatus)
    ensures
        status@ == converting_status(filename@),
{
    let mut message = String::from_str("Converting PDF '");
    message.append(filename);
    message.append("'...");
    let status = ProgressStatus {
        stage: String::from_str("Converting PDF"),
        current: 0,
        total: 0,
        message,
        complete: false,
        results: Vec::new(),
    };
    assert(status@ =~= converting_status(filename@));
    status
}

/// The snapshot of a document that was converted to `pages` page images.
pub fn converted_snapshot(pages: usize) -> (status: ProgressStatus)
    ensures
        status@ == converted_status(pages),
{
    let mut message = String::from_str("Converted ");
    message.append(format_decimal(pages as u128).as_str());
    message.append(" pages, starting OCR...");
    let status = ProgressStatus {
        stage: String::from_str("PDF Converted"),
        current: 0,
        total: pages,
        message,
        complete: false,
        results: Vec::new(),
    };
    assert(status@ =~= converted_status(pages));
    status
}

/// The snapshot of a document whose page `page` of `pages` is recognized.
pub fn recognizing_snapshot(page: usize, pages: usize) -> (status: ProgressStatus)
    ensures
        status@ == recognizing_status(page, pages),
{
    let mut message = String::from_str("Processing page ");
    message.append(format_decimal(page as u128).as_str());
    message.append("/");
    message.append(format_decimal(pages as u128).as_str());
    let status = ProgressStatus {
        stage: String::from_str("OCR Processing"),
        current: page,
        total: pages,
        message,
        complete: false,
        results: Vec::new(),
    };
    assert(status@ =~= recognizing_status(page, pages));
    status
}

/// The last snapshot of a session, with the results of its files.
pub fn complete_snapshot(results: &Vec<OcrResult>) -> (status: ProgressStatus)
    ensures
        status@ == complete_status(result_views(results@)),
{
    let status = ProgressStatus {
        stage: String::from_str("Complete"),
        current: results.len(),
        total: results.len(),
        message: String::from_str("Processing complete"),
        complete: true,
        results: clone_results(results),
    };
    assert(status@ =~= complete_status(result_views(results@)));
    status
}

/// The result of a file that could not be processed.
pub fn failure(filename: &str, error: String) -> (result: OcrResult)
    ensures
        result@ == failed_result(filename@, error@),
{
    OcrResult {
        filename: String::from_str(filename),
        text: String::new(),
        success: false,
        error: Some(error),
        pages_processed: None,
        total_pages: None,
        elapsed_millis: None,
    }
}

/// The result of a file whose `pages` pages went through recognition in
/// `millis` milliseconds and gave `text`.
pub fn recognized(filename: &str, text: &str, pages: usize, millis: u64) -> (result: OcrResult)
    ensures
        result@ == recognized_result(filename@, text@, pages, millis),
{
    OcrResult {
        filename: String::from_str(filename),
        text: trim(text),
        success: true,
        error: None,
        pages_processed: Some(pages),
        total_pages: Some(pages),
        elapsed_millis: Some(millis),
    }
}

/// The result of a single image, from how the recognizer ended on it. On
/// success the image counts as one page of one.
pub fn image_outcome(filename: &str, outcome: Recognition, millis: u64) -> (result: OcrResult)
    ensures
        result@ == image_result(filename@, outcome@, millis),
        result.success ==> result.pages_processed == Some(1usize) && result.total_pages == Some(
            1usize,
        ),
        result.success <==> outcome is Text,
{
    match outcome {
        Recognition::NotRun(e) => {
            let mut error = String::from_str("Failed to execute tesseract: ");
            error.append(e.as_str());
            error.append(". Make sure tesseract is installed.");
            failure(filename, error)
        },
        Recognition::Failed(e) => {
            let mut error = String::from_str("Tesseract error: ");
            error.append(e.as_str());
            failure(filename, error)
        },
        Recognition::Unreadable(e) => {
            let mut error = String::from_str("Failed to read OCR output: ");
            error.append(e.as_str());
            failure(filename, error)
        },
        Recognition::Text(t) => recognized(filename, t.as_str(), 1, millis),
    }
}

/// The name of the page image with number `number` that the converter
/// writes for `prefix`, with the number padded to three digits or to two.
pub fn page_path(prefix: &str, number: u128, wide: bool) -> (path: String)
    ensures
        path@ == page_candidate(prefix@, number as nat, wide),
{
    let mut path = String::from_str(prefix);
    path.append("-");
    let width: usize = if wide {
        3
    } else {
        2
    };
    path.append(format_zero_padded(number, width).as_str());
    path.append(".png");
    path
}

/// The text of a document after the page with number `number`: a page that
/// was recognized adds its label and its text.
pub fn add_page(text: String, number: usize, outcome: Recognition) -> (out: String)
    ensures
        out@ == text_with_page(text@, number as nat, outcome@),
{
    let mut out = text;
    match outcome {
        Recognition::Text(t) => {
            let mut label = String::from_str(
                "\n\u{e2}\u{201d}\u{e2}\u{201d}\u{e2}\u{201d} Page ",
            );
            label.append(format_decimal(number as u128).as_str());
            label.append(" \u{e2}\u{201d}\u{e2}\u{201d}\u{e2}\u{201d}\n");
            assert(label@ == page_label(number as nat));
            out.append(label.as_str());
            out.append(t.as_str());
        },
        _ => {},
    }
    out
}

/// The milliseconds from `started` to `now`; 0 if the clock went back.
pub fn millis_between(started: u64, now: u64) -> (millis: u64)
    ensures
        millis == elapsed(started, now),
{
    if now >= started {
        now - started
    } else {
        0
    }
}

/// The estimate of a document's total recognition time, from the time that
/// its first page took. `None` for a document of fewer than two pages.
pub fn estimate_total_millis(first_page_millis: u64, pages: usize) -> (estimate: Option<u128>)
    ensures
        estimate == estimated_total(first_page_millis, pages),
{
    if pages >= 2 {
        let a: u128 = first_page_millis as u128;
        let b: u128 = pages as u128;
        assert(a * b <= 0xffff_ffff_ffff_ffff * 0xffff_ffff_ffff_ffff) by (nonlinear_arith)
            requires
                0 <= a <= 0xffff_ffff_ffff_ffff,
                0 <= b <= 0xffff_ffff_ffff_ffff,
        ;
        Some(a * b)
    } else {
        None
    }
}

/// The pipeline of one session: the files that were accepted, the results
/// so far and where the work stands.
pub struct Pipeline {
    session: String,
    temp_dir: String,
    artifacts: Vec<Artifact>,
    results: Vec<OcrResult>,
    phase: Phase,
    prefix: String,
    pages: Vec<String>,
    cursor: usize,
    text: String,
    started: u64,
}

impl View for Pipeline {
    type V = PipelineView;

    closed spec fn view(&self) -> PipelineView {
        PipelineView {
            session: self.session@,
            temp_dir: self.temp_dir@,
            artifacts: artifact_views(self.artifacts@),
            results: result_views(self.results@),
            phase: self.phase,
            prefix: self.prefix@,
            pages: texts(self.pages@),
            cursor: self.cursor,
            text: self.text@,
            started: self.started,
        }
    }
}

impl Pipeline {
    /// Whether the pipeline is in a state that the machine can reach.
    pub open spec fn wf(&self) -> bool {
        consistent(self@)
    }

    /// Accepts the files `artifacts` as the session `session`: they will be
    /// processed in their order, with intermediate files in `temp_dir`. From
    /// this call on the session has a snapshot in `tracker`.
    pub fn new(
        session: String,
        temp_dir: String,
        artifacts: Vec<Artifact>,
        tracker: &mut ProgressTracker,
    ) -> (pipeline: Self)
        ensures
            pipeline.wf(),
            pipeline@ == initial(session@, temp_dir@, artifact_views(artifacts@)),
            final(tracker)@ == old(tracker)@.insert(session@, queued_status()),
    {
        tracker.write(session.as_str(), queued_snapshot());
        assert(artifacts@.len() == artifacts.len());
        let pipeline = Pipeline {
            session,
            temp_dir,
            artifacts,
            results: Vec::new(),
            phase: Phase::Queued,
            prefix: String::new(),
            pages: Vec::new(),
            cursor: 0,
            text: String::new(),
            started: 0,
        };
        assert(pipeline@ =~= initial(session@, temp_dir@, artifact_views(artifacts@)));
        pipeline
    }

    /// Where the work stands.
    pub fn phase(&self) -> (phase: Phase)
        ensures
            phase == self@.phase,
    {
        self.phase
    }

    /// Whether the session is complete.
    pub fn is_complete(&self) -> (complete: bool)
        ensures
            complete == (self@.phase == Phase::Complete),
    {
        match self.phase {
            Phase::Complete => true,
            _ => false,
        }
    }

    /// The results of the files that are done, in the files' order.
    pub fn results(&self) -> (results: &Vec<OcrResult>)
        ensures
            result_views(results@) == self@.results,
    {
        &self.results
    }

    /// Turns to the first file without a result, or completes the session.
    fn begin(self, tracker: &mut ProgressTracker, remove: Vec<String>, token: &str, now: u64) -> (r:
        (Pipeline, Step))
        requires
            consistent(PipelineView { phase: Phase::Queued, ..self@ }),
        ensures
            r.0.wf(),
            carried_out(
                begin(self@, texts(remove@), token@, now),
                old(tracker)@,
                final(tracker)@,
                r.0@,
                r.1@,
            ),
    {
        let ghost before = self@;
        let mut p = self;
        p.prefix = String::new();
        p.pages = Vec::new();
        p.cursor = 0;
        p.text = String::new();
        let index = p.results.len();
        if index >= p.artifacts.len() {
            p.phase = Phase::Complete;
            tracker.write(p.session.as_str(), complete_snapshot(&p.results));
            let step = Step { remove, command: Command::Finished, estimate_millis: None };
            assert(p@ =~= begin(before, texts(remove@), token@, now).state);
            (p, step)
        } else {
            assert(p.artifacts[index as int]@ == current(before));
            match p.artifacts[index].kind {
                ArtifactKind::Pdf => {
                    let mut name = String::from_str("pdf_convert_");
                    name.append(token);
                    let prefix = join_path(p.temp_dir.as_str(), name.as_str());
                    tracker.write(
                        p.session.as_str(),
                        converting_snapshot(p.artifacts[index].filename.as_str()),
                    );
                    let source = p.artifacts[index].path.clone();
                    p.phase = Phase::Converting;
                    p.prefix = prefix.clone();
                    let step = Step {
                        remove,
                        command: Command::Convert { source, output_prefix: prefix },
                        estimate_millis: None,
                    };
                    assert(p@ =~= begin(before, texts(remove@), token@, now).state);
                    (p, step)
                },
                ArtifactKind::Image => {
                    let mut name = String::from_str("ocr_output_");
                    name.append(token);
                    let output_base = join_path("./assets/conversions", name.as_str());
                    let image = p.artifacts[index].path.clone();
                    p.phase = Phase::RecognizingImage;
                    p.started = now;
                    let step = Step {
                        remove,
                        command: Command::Recognize { image, output_base },
                        estimate_millis: None,
                    };
                    assert(p@ =~= begin(before, texts(remove@), token@, now).state);
                    (p, step)
                },
            }
        }
    }

    /// Records `result` for the current file and turns to the next.
    fn finish(
        self,
        tracker: &mut ProgressTracker,
        result: OcrResult,
        remove: Vec<String>,
        token: &str,
        now: u64,
    ) -> (r: (Pipeline, Step))
        requires
            self.wf(),
            in_progress(self@.phase),
            result@.filename == current(self@).filename,
        ensures
            r.0.wf(),
            carried_out(
                finish(self@, result@, texts(remove@), token@, now),
                old(tracker)@,
                final(tracker)@,
                r.0@,
                r.1@,
            ),
    {
        let ghost before = self@;
        let mut p = self;
        let mut remove = remove;
        let index = p.results.len();
        assert(p.artifacts[index as int]@ == current(before));
        let ghost removed = texts(remove@);
        remove.push(p.artifacts[index].path.clone());
        assert(texts(remove@) =~= removed.push(current(before).path));
        p.results.push(result);
        assert(p@ =~= PipelineView { results: before.results.push(result@), ..before });
        p.begin(tracker, remove, token, now)
    }

    /// The step that `event` causes, with `token` as the identifier for the
    /// files that the step names. The snapshot that the step publishes is
    /// written to `tracker` under the session's id before the step returns.
    pub fn step_with(self, tracker: &mut ProgressTracker, event: Event, token: &str, now: u64) -> (r:
        (Pipeline, Step))
        requires
            self.wf(),
        ensures
            r.0.wf(),
            carried_out(
                next(self@, event@, token@, now),
                old(tracker)@,
                final(tracker)@,
                r.0@,
                r.1@,
            ),
    {
        match (self.phase, event) {
            (Phase::Queued, Event::Start) => {
                let remove: Vec<String> = Vec::new();
                assert(texts(remove@) =~= Seq::<Seq<char>>::empty());
                self.begin(tracker, remove, token, now)
            },
            (Phase::Converting, Event::ConverterExited(exit)) => self.converter_exited(
                tracker,
                exit,
                token,
                now,
            ),
            (Phase::ProbingWide, Event::Probed(found)) => self.probed(
                tracker,
                found,
                token,
                now,
            ),
            (Phase::ProbingNarrow, Event::Probed(found)) => self.probed(
                tracker,
                found,
                token,
                now,
            ),
            (Phase::Converted, Event::Resume) => self.resumed(tracker, token, now),
            (Phase::Recognizing, Event::Recognized(outcome)) => self.page_recognized(
                tracker,
                outcome,
                token,
                now,
            ),
            (Phase::RecognizingImage, Event::Recognized(outcome)) => self.image_recognized(
                tracker,
                outcome,
                token,
                now,
            ),
            (_, event) => {
                let step = Step {
                    remove: Vec::new(),
                    command: Command::Ignored,
                    estimate_millis: None,
                };
                assert(step@ =~= ignore(self@).step);
                assert(next(self@, event@, token@, now) == ignore(self@));
                (self, step)
            },
        }
    }

    /// The step that `event` causes, with a fresh random identifier for the
    /// files that the step names.
    pub fn step(self, tracker: &mut ProgressTracker, event: Event, now: u64) -> (r: (Pipeline, Step))
        requires
            self.wf(),
        ensures
            r.0.wf(),
            exists|token: Seq<char>| #[trigger]
                is_token(token) && carried_out(
                    next(self@, event@, token, now),
                    old(tracker)@,
                    final(tracker)@,
                    r.0@,
                    r.1@,
                ),
    {
        let token = random_token();
        self.step_with(tracker, event, token.as_str(), now)
    }

    fn converter_exited(
        self,
        tracker: &mut ProgressTracker,
        exit: ToolExit,
        token: &str,
        now: u64,
    ) -> (r: (Pipeline, Step))
        requires
            self.wf(),
            self@.phase == Phase::Converting,
        ensures
            r.0.wf(),
            carried_out(
                on_converter_exit(self@, exit@, token@, now),
                old(tracker)@,
                final(tracker)@,
                r.0@,
                r.1@,
            ),
    {
        let ghost before = self@;
        let index = self.results.len();
        assert(self.artifacts[index as int]@ == current(before));
        match exit {
            ToolExit::NotRun(e) => {
                let mut error = String::from_str("Failed to execute pdftoppm: ");
                error.append(e.as_str());
                error.append(". Install poppler-utils package.");
                let result = failure(self.artifacts[index].filename.as_str(), error);
                let remove: Vec<String> = Vec::new();
                assert(texts(remove@) =~= Seq::<Seq<char>>::empty());
                self.finish(tracker, result, remove, token, now)
            },
            ToolExit::Failed(e) => {
                let mut error = String::from_str("PDF conversion error: ");
                error.append(e.as_str());
                error.append(". Make sure poppler-utils is installed.");
                let result = failure(self.artifacts[index].filename.as_str(), error);
                let remove: Vec<String> = Vec::new();
                assert(texts(remove@) =~= Seq::<Seq<char>>::empty());
                self.finish(tracker, result, remove, token, now)
            },
            ToolExit::Succeeded => {
                let mut p = self;
                p.phase = Phase::ProbingWide;
                p.pages = Vec::new();
                let path = page_path(p.prefix.as_str(), 1, true);
                let step = Step {
                    remove: Vec::new(),
                    command: Command::Probe { path },
                    estimate_millis: None,
                };
                assert(p@ =~= on_converter_exit(before, exit@, token@, now).state);
                assert(step@ =~= on_converter_exit(before, exit@, token@, now).step);
                (p, step)
            },
        }
    }

    fn probed(self, tracker: &mut ProgressTracker, found: bool, token: &str, now: u64) -> (r: (
        Pipeline,
        Step,
    ))
        requires
            self.wf(),
            self@.phase == Phase::ProbingWide || self@.phase == Phase::ProbingNarrow,
        ensures
            r.0.wf(),
            carried_out(
                on_probed(self@, found, token@, now),
                old(tracker)@,
                final(tracker)@,
                r.0@,
                r.1@,
            ),
    {
        let ghost before = self@;
        let mut p = self;
        let count = p.pages.len();
        let number: u128 = count as u128 + 1;
        let wide = match p.phase {
            Phase::ProbingWide => true,
            _ => false,
        };
        if found && count < usize::MAX {
            let ghost pages = texts(p.pages@);
            let page = page_path(p.prefix.as_str(), number, wide);
            p.pages.push(page);
            assert(texts(p.pages@) =~= pages.push(page_candidate(before.prefix, number as nat, wide)));
            p.phase = Phase::ProbingWide;
            let path = page_path(p.prefix.as_str(), number + 1, true);
            let step = Step {
                remove: Vec::new(),
                command: Command::Probe { path },
                estimate_millis: None,
            };
            assert(p@ =~= on_probed(before, found, token@, now).state);
            assert(step@ =~= on_probed(before, found, token@, now).step);
            (p, step)
        } else if wide && !found {
            p.phase = Phase::ProbingNarrow;
            let path = page_path(p.prefix.as_str(), number, false);
            let step = Step {
                remove: Vec::new(),
                command: Command::Probe { path },
                estimate_millis: None,
            };
            assert(p@ =~= on_probed(before, found, token@, now).state);
            assert(step@ =~= on_probed(before, found, token@, now).step);
            (p, step)
        } else if count == 0 {
            let index = p.results.len();
            assert(p.artifacts[index as int]@ == current(before));
            let result = failure(
                p.artifacts[index].filename.as_str(),
                String::from_str("PDF conversion failed: no output files created"),
            );
            let remove: Vec<String> = Vec::new();
            assert(texts(remove@) =~= Seq::<Seq<char>>::empty());
            p.finish(tracker, result, remove, token, now)
        } else {
            p.phase = Phase::Converted;
            tracker.write(p.session.as_str(), converted_snapshot(count));
            let step = Step {
                remove: Vec::new(),
                command: Command::Continue,
                estimate_millis: None,
            };
            assert(p@ =~= on_probed(before, found, token@, now).state);
            assert(step@ =~= on_probed(before, found, token@, now).step);
            (p, step)
        }
    }

    /// The recognizer's output path, without its extension, under `dir`.
    fn output_base(dir: &str, token: &str) -> (path: String)
        ensures
            path@ == recognize_base(dir@, token@),
    {
        let mut name = String::from_str("ocr_output_");
        name.append(token);
        join_path(dir, name.as_str())
    }

    fn resumed(self, tracker: &mut ProgressTracker, token: &str, now: u64) -> (r: (Pipeline, Step))
        requires
            self.wf(),
            self@.phase == Phase::Converted,
        ensures
            r.0.wf(),
            carried_out(
                on_resume(self@, token@, now),
                old(tracker)@,
                final(tracker)@,
                r.0@,
                r.1@,
            ),
    {
        let ghost before = self@;
        let mut p = self;
        p.phase = Phase::Recognizing;
        p.cursor = 0;
        p.text = String::new();
        p.started = now;
        tracker.write(p.session.as_str(), recognizing_snapshot(1, p.pages.len()));
        let image = p.pages[0].clone();
        let output_base = Self::output_base(p.temp_dir.as_str(), token);
        let step = Step {
            remove: Vec::new(),
            command: Command::Recognize { image, output_base },
            estimate_millis: None,
        };
        assert(p@ =~= on_resume(before, token@, now).state);
        assert(step@ =~= on_resume(before, token@, now).step);
        (p, step)
    }

    fn page_recognized(
        self,
        tracker: &mut ProgressTracker,
        outcome: Recognition,
        token: &str,
        now: u64,
    ) -> (r: (Pipeline, Step))
        requires
            self.wf(),
            self@.phase == Phase::Recognizing,
        ensures
            r.0.wf(),
            carried_out(
                on_page(self@, outcome@, token@, now),
                old(tracker)@,
                final(tracker)@,
                r.0@,
                r.1@,
            ),
    {
        let ghost before = self@;
        let mut p = self;
        let count = p.pages.len();
        let gathered = add_page(p.text.clone(), p.cursor + 1, outcome);
        let millis = millis_between(p.started, now);
        if p.cursor + 1 < count {
            let following = p.cursor + 1;
            p.cursor = following;
            p.text = gathered;
            tracker.write(p.session.as_str(), recognizing_snapshot(following + 1, count));
            let image = p.pages[following].clone();
            let output_base = Self::output_base(p.temp_dir.as_str(), token);
            let estimate_millis = if following == 1 {
                estimate_total_millis(millis, count)
            } else {
                None
            };
            let step = Step {
                remove: Vec::new(),
                command: Command::Recognize { image, output_base },
                estimate_millis,
            };
            assert(p@ =~= on_page(before, outcome@, token@, now).state);
            assert(step@ =~= on_page(before, outcome@, token@, now).step);
            (p, step)
        } else {
            let index = p.results.len();
            assert(p.artifacts[index as int]@ == current(before));
            let result = recognized(
                p.artifacts[index].filename.as_str(),
                gathered.as_str(),
                count,
                millis,
            );
            let remove = clone_strings(&p.pages);
            p.finish(tracker, result, remove, token, now)
        }
    }

    fn image_recognized(
        self,
        tracker: &mut ProgressTracker,
        outcome: Recognition,
        token: &str,
        now: u64,
    ) -> (r: (Pipeline, Step))
        requires
            self.wf(),
            self@.phase == Phase::RecognizingImage,
        ensures
            r.0.wf(),
            carried_out(
                on_image(self@, outcome@, token@, now),
                old(tracker)@,
                final(tracker)@,
                r.0@,
                r.1@,
            ),
    {
        let ghost before = self@;
        let index = self.results.len();
        assert(self.artifacts[index as int]@ == current(before));
        let result = image_outcome(
            self.artifacts[index].filename.as_str(),
            outcome,
            millis_between(self.started, now),
        );
        let remove: Vec<String> = Vec::new();
        assert(texts(remove@) =~= Seq::<Seq<char>>::empty());
        self.finish(tracker, result, remove, token, now)
    }
}

/// A copy of `strings`.
pub fn clone_strings(strings: &Vec<String>) -> (copy: Vec<String>)
    ensures
        texts(copy@) == texts(strings@),
{
    let mut copy: Vec<String> = Vec::new();
    let mut i: usize = 0;
    while i < strings.len()
        invariant
            i <= strings.len(),
            copy.len() == i,
            forall|j: int| 0 <= j < i ==> (#[trigger] copy@[j])@ == strings@[j]@,
        decreases strings.len() - i,
    {
        copy.push(strings[i].clone());
        i += 1;
    }
    assert(texts(copy@) =~= texts(strings@));
    copy
}

} // verus!
