//! The pipeline of one session as a mathematical state machine: what state
//! follows from a state and an event, what is published to pollers on the
//! way, and what the driver is asked to do next.

use crate::progress::{OcrResultView, ProgressView};
use crate::text::{decimal, joined, trimmed, zero_padded};
use vstd::prelude::*;

verus! {

/// How an accepted file is processed.
#[derive(Clone, Copy, Debug, PartialEq, Eq, Structural)]
pub enum ArtifactKind {
    /// A document that is converted to page images first.
    Pdf,
    /// A single image that is recognized as it is.
    Image,
}

/// Where a session's pipeline stands.
#[derive(Clone, Copy, Debug, PartialEq, Eq, Structural)]
pub enum Phase {
    /// Accepted, nothing started yet.
    Queued,
    /// The converter runs on the current document.
    Converting,
    /// Looking for the next page image under its three-digit name.
    ProbingWide,
    /// Looking for the next page image under its two-digit name.
    ProbingNarrow,
    /// The current document's pages are known.
    Converted,
    /// The recognizer runs on one page of the current document.
    Recognizing,
    /// The recognizer runs on the current single image.
    RecognizingImage,
    /// Every file has its result; nothing more happens.
    Complete,
}

/// An accepted file as a mathematical value.
#[verifier::ext_equal]
pub struct ArtifactView {
    pub path: Seq<char>,
    pub filename: Seq<char>,
    pub kind: ArtifactKind,
}

/// How a run of the converter ended.
#[verifier::ext_equal]
pub enum ToolExitView {
    NotRun(Seq<char>),
    Failed(Seq<char>),
    Succeeded,
}

/// How a run of the recognizer ended.
#[verifier::ext_equal]
pub enum RecognitionView {
    NotRun(Seq<char>),
    Failed(Seq<char>),
    Unreadable(Seq<char>),
    Text(Seq<char>),
}

/// What the driver reports back.
#[verifier::ext_equal]
pub enum EventView {
    Start,
    ConverterExited(ToolExitView),
    Probed(bool),
    Resume,
    Recognized(RecognitionView),
}

/// What the driver is asked to do next.
#[verifier::ext_equal]
pub enum CommandView {
    Convert { source: Seq<char>, output_prefix: Seq<char> },
    Probe { path: Seq<char> },
    Recognize { image: Seq<char>, output_base: Seq<char> },
    Continue,
    Finished,
    Ignored,
}

/// The outcome of one step for the driver.
#[verifier::ext_equal]
pub struct StepView {
    pub remove: Seq<Seq<char>>,
    pub command: CommandView,
    pub estimate_millis: Option<u128>,
}

/// The state of one session's pipeline.
#[verifier::ext_equal]
pub struct PipelineView {
    pub session: Seq<char>,
    pub temp_dir: Seq<char>,
    pub artifacts: Seq<ArtifactView>,
    /// One result for each file that is done, in the files' order.
    pub results: Seq<OcrResultView>,
    pub phase: Phase,
    /// The converter's output prefix for the current document.
    pub prefix: Seq<char>,
    /// The page images found for the current document, in page order.
    pub pages: Seq<Seq<char>>,
    /// The index in `pages` of the page that is being recognized.
    pub cursor: usize,
    /// The text gathered from the current document's pages so far.
    pub text: Seq<char>,
    /// The clock reading at which recognition of the current file began.
    pub started: u64,
}

/// A step of the machine: the state that follows, the snapshot that is
/// published, if any, and what the driver gets back.
#[verifier::ext_equal]
pub struct Transition {
    pub state: PipelineView,
    pub publish: Option<ProgressView>,
    pub step: StepView,
}

/// The directory that receives the recognizer's output for single images.
pub open spec fn image_output_dir() -> Seq<char> {
    "./assets/conversions"@
}

/// The name of the page image with number `number` that the converter writes
/// for `prefix`: the number is padded to three digits or to two.
pub open spec fn page_candidate(prefix: Seq<char>, number: nat, wide: bool) -> Seq<char> {
    prefix + "-"@ + zero_padded(number, if wide { 3 } else { 2 }) + ".png"@
}

/// The converter's output prefix under `temp_dir`.
pub open spec fn convert_prefix(temp_dir: Seq<char>, token: Seq<char>) -> Seq<char> {
    joined(temp_dir, "pdf_convert_"@ + token)
}

/// The recognizer's output path, without its extension, under `dir`.
pub open spec fn recognize_base(dir: Seq<char>, token: Seq<char>) -> Seq<char> {
    joined(dir, "ocr_output_"@ + token)
}

/// The line that precedes the text of page `number` in a document's text.
pub open spec fn page_label(number: nat) -> Seq<char> {
    "\n\u{e2}\u{201d}\u{e2}\u{201d}\u{e2}\u{201d} Page "@ + decimal(number)
        + " \u{e2}\u{201d}\u{e2}\u{201d}\u{e2}\u{201d}\n"@
}

/// The milliseconds from `started` to `now`; 0 if the clock went back.
pub open spec fn elapsed(started: u64, now: u64) -> u64 {
    if now >= started {
        (now - started) as u64
    } else {
        0
    }
}

/// The estimate of a document's total recognition time: the time that the
/// first page took, times the number of pages. Defined for documents of two
/// pages or more.
pub open spec fn estimated_total(first_page_millis: u64, pages: usize) -> Option<u128> {
    if pages >= 2 {
        Some((first_page_millis * pages) as u128)
    } else {
        None
    }
}

/// The snapshot of a session that was accepted and has not started yet.
pub open spec fn queued_status() -> ProgressView {
    ProgressView {
        stage: "Queued"@,
        current: 0,
        total: 0,
        message: "Waiting to start"@,
        complete: false,
        results: Seq::empty(),
    }
}

/// The snapshot of a document whose conversion begins: the page count is
/// not known yet.
pub open spec fn converting_status(filename: Seq<char>) -> ProgressView {
    ProgressView {
        stage: "Converting PDF"@,
        current: 0,
        total: 0,
        message: "Converting PDF '"@ + filename + "'..."@,
        complete: false,
        results: Seq::empty(),
    }
}

/// The snapshot of a document that was converted to `pages` page images,
/// none of which is recognized yet.
pub open spec fn converted_status(pages: usize) -> ProgressView {
    ProgressView {
        stage: "PDF Converted"@,
        current: 0,
        total: pages,
        message: "Converted "@ + decimal(pages as nat) + " pages, starting OCR..."@,
        complete: false,
        results: Seq::empty(),
    }
}

/// The snapshot of a document whose page `page` of `pages`, counted from 1,
/// is about to be recognized.
pub open spec fn recognizing_status(page: usize, pages: usize) -> ProgressView {
    ProgressView {
        stage: "OCR Processing"@,
        current: page,
        total: pages,
        message: "Processing page "@ + decimal(page as nat) + "/"@ + decimal(pages as nat),
        complete: false,
        results: Seq::empty(),
    }
}

/// The last snapshot of a session: it is the only one with `complete` set
/// and the only one that holds results.
pub open spec fn complete_status(results: Seq<OcrResultView>) -> ProgressView {
    ProgressView {
        stage: "Complete"@,
        current: results.len() as usize,
        total: results.len() as usize,
        message: "Processing complete"@,
        complete: true,
        results: results,
    }
}

/// The result of a file that could not be processed.
pub open spec fn failed_result(filename: Seq<char>, error: Seq<char>) -> OcrResultView {
    OcrResultView {
        filename: filename,
        text: Seq::empty(),
        success: false,
        error: Some(error),
        pages_processed: None,
        total_pages: None,
        elapsed_millis: None,
    }
}

/// The result of a file whose `pages` pages went through recognition and
/// gave `text`.
pub open spec fn recognized_result(
    filename: Seq<char>,
    text: Seq<char>,
    pages: usize,
    millis: u64,
) -> OcrResultView {
    OcrResultView {
        filename: filename,
        text: trimmed(text),
        success: true,
        error: None,
        pages_processed: Some(pages),
        total_pages: Some(pages),
        elapsed_millis: Some(millis),
    }
}

/// The result of a single image, from how the recognizer ended on it.
pub open spec fn image_result(filename: Seq<char>, outcome: RecognitionView, millis: u64)
    -> OcrResultView {
    match outcome {
        RecognitionView::NotRun(e) => failed_result(
            filename,
            "Failed to execute tesseract: "@ + e + ". Make sure tesseract is installed."@,
        ),
        RecognitionView::Failed(e) => failed_result(filename, "Tesseract error: "@ + e),
        RecognitionView::Unreadable(e) => failed_result(
            filename,
            "Failed to read OCR output: "@ + e,
        ),
        RecognitionView::Text(t) => recognized_result(filename, t, 1, millis),
    }
}

/// The text of a document after one more page: a page that was recognized
/// adds its label and its text, be the text empty or not; a page on which
/// the recognizer failed adds nothing.
pub open spec fn text_with_page(text: Seq<char>, number: nat, outcome: RecognitionView) -> Seq<
    char,
> {
    match outcome {
        RecognitionView::Text(t) => text + page_label(number) + t,
        _ => text,
    }
}

/// The state of a session that was accepted with `artifacts`.
pub open spec fn initial(session: Seq<char>, temp_dir: Seq<char>, artifacts: Seq<ArtifactView>)
    -> PipelineView {
    PipelineView {
        session: session,
        temp_dir: temp_dir,
        artifacts: artifacts,
        results: Seq::empty(),
        phase: Phase::Queued,
        prefix: Seq::empty(),
        pages: Seq::empty(),
        cursor: 0,
        text: Seq::empty(),
        started: 0,
    }
}

/// The file that the pipeline is working on.
pub open spec fn current(s: PipelineView) -> ArtifactView {
    s.artifacts[s.results.len() as int]
}

/// A step that changes nothing.
pub open spec fn ignore(s: PipelineView) -> Transition {
    Transition {
        state: s,
        publish: None,
        step: StepView { remove: Seq::empty(), command: CommandView::Ignored, estimate_millis: None },
    }
}

/// Turns to the first file that has no result yet, or completes the session
/// when every file has one. `remove` names the files that the driver deletes
/// before it goes on.
pub open spec fn begin(s: PipelineView, remove: Seq<Seq<char>>, token: Seq<char>, now: u64)
    -> Transition {
    let fresh = PipelineView {
        prefix: Seq::empty(),
        pages: Seq::empty(),
        cursor: 0,
        text: Seq::empty(),
        ..s
    };
    if s.results.len() >= s.artifacts.len() {
        Transition {
            state: PipelineView { phase: Phase::Complete, ..fresh },
            publish: Some(complete_status(s.results)),
            step: StepView { remove: remove, command: CommandView::Finished, estimate_millis: None },
        }
    } else {
        let artifact = current(s);
        match artifact.kind {
            ArtifactKind::Pdf => {
                let prefix = convert_prefix(s.temp_dir, token);
                Transition {
                    state: PipelineView { phase: Phase::Converting, prefix: prefix, ..fresh },
                    publish: Some(converting_status(artifact.filename)),
                    step: StepView {
                        remove: remove,
                        command: CommandView::Convert {
                            source: artifact.path,
                            output_prefix: prefix,
                        },
                        estimate_millis: None,
                    },
                }
            },
            ArtifactKind::Image => Transition {
                state: PipelineView { phase: Phase::RecognizingImage, started: now, ..fresh },
                publish: None,
                step: StepView {
                    remove: remove,
                    command: CommandView::Recognize {
                        image: artifact.path,
                        output_base: recognize_base(image_output_dir(), token),
                    },
                    estimate_millis: None,
                },
            },
        }
    }
}

/// Records `result` for the current file, has the driver delete `remove` and
/// the file itself, and turns to the next file.
pub open spec fn finish(
    s: PipelineView,
    result: OcrResultView,
    remove: Seq<Seq<char>>,
    token: Seq<char>,
    now: u64,
) -> Transition {
    begin(
        PipelineView { results: s.results.push(result), ..s },
        remove.push(current(s).path),
        token,
        now,
    )
}

/// The converter has ended on the current document.
pub open spec fn on_converter_exit(s: PipelineView, exit: ToolExitView, token: Seq<char>, now: u64)
    -> Transition {
    match exit {
        ToolExitView::NotRun(e) => finish(
            s,
            failed_result(
                current(s).filename,
                "Failed to execute pdftoppm: "@ + e + ". Install poppler-utils package."@,
            ),
            Seq::empty(),
            token,
            now,
        ),
        ToolExitView::Failed(e) => finish(
            s,
            failed_result(
                current(s).filename,
                "PDF conversion error: "@ + e + ". Make sure poppler-utils is installed."@,
            ),
            Seq::empty(),
            token,
            now,
        ),
        ToolExitView::Succeeded => Transition {
            state: PipelineView { phase: Phase::ProbingWide, pages: Seq::empty(), ..s },
            publish: None,
            step: StepView {
                remove: Seq::empty(),
                command: CommandView::Probe { path: page_candidate(s.prefix, 1, true) },
                estimate_millis: None,
            },
        },
    }
}

/// The driver has looked for the next page image. A page that is found under
/// either name is taken and the page after it is looked for; the first page
/// that is found under neither name ends the search, and so does the page
/// whose number no `usize` can hold.
pub open spec fn on_probed(s: PipelineView, found: bool, token: Seq<char>, now: u64)
    -> Transition {
    let number = s.pages.len() + 1;
    let wide = s.phase == Phase::ProbingWide;
    if found && s.pages.len() < usize::MAX {
        Transition {
            state: PipelineView {
                phase: Phase::ProbingWide,
                pages: s.pages.push(page_candidate(s.prefix, number, wide)),
                ..s
            },
            publish: None,
            step: StepView {
                remove: Seq::empty(),
                command: CommandView::Probe { path: page_candidate(s.prefix, number + 1, true) },
                estimate_millis: None,
            },
        }
    } else if wide && !found {
        Transition {
            state: PipelineView { phase: Phase::ProbingNarrow, ..s },
            publish: None,
            step: StepView {
                remove: Seq::empty(),
                command: CommandView::Probe { path: page_candidate(s.prefix, number, false) },
                estimate_millis: None,
            },
        }
    } else if s.pages.len() == 0 {
        finish(
            s,
            failed_result(
                current(s).filename,
                "PDF conversion failed: no output files created"@,
            ),
            Seq::empty(),
            token,
            now,
        )
    } else {
        Transition {
            state: PipelineView { phase: Phase::Converted, ..s },
            publish: Some(converted_status(s.pages.len() as usize)),
            step: StepView {
                remove: Seq::empty(),
                command: CommandView::Continue,
                estimate_millis: None,
            },
        }
    }
}

/// Recognition of the current document begins with its first page. The
/// page's snapshot is published before the driver is asked to run the
/// recognizer.
pub open spec fn on_resume(s: PipelineView, token: Seq<char>, now: u64) -> Transition {
    Transition {
        state: PipelineView {
            phase: Phase::Recognizing,
            cursor: 0,
            text: Seq::empty(),
            started: now,
            ..s
        },
        publish: Some(recognizing_status(1, s.pages.len() as usize)),
        step: StepView {
            remove: Seq::empty(),
            command: CommandView::Recognize {
                image: s.pages[0],
                output_base: recognize_base(s.temp_dir, token),
            },
            estimate_millis: None,
        },
    }
}

/// The recognizer has ended on the page at `s.cursor`. Whatever it gave, the
/// next page follows; after the last page the document's result is recorded
/// and its page images are deleted.
pub open spec fn on_page(s: PipelineView, outcome: RecognitionView, token: Seq<char>, now: u64)
    -> Transition {
    let text = text_with_page(s.text, (s.cursor + 1) as nat, outcome);
    if s.cursor + 1 < s.pages.len() {
        let next = (s.cursor + 1) as usize;
        Transition {
            state: PipelineView { cursor: next, text: text, ..s },
            publish: Some(recognizing_status((next + 1) as usize, s.pages.len() as usize)),
            step: StepView {
                remove: Seq::empty(),
                command: CommandView::Recognize {
                    image: s.pages[next as int],
                    output_base: recognize_base(s.temp_dir, token),
                },
                estimate_millis: if next == 1 {
                    estimated_total(elapsed(s.started, now), s.pages.len() as usize)
                } else {
                    None
                },
            },
        }
    } else {
        finish(
            s,
            recognized_result(
                current(s).filename,
                text,
                s.pages.len() as usize,
                elapsed(s.started, now),
            ),
            s.pages,
            token,
            now,
        )
    }
}

/// The recognizer has ended on the current single image.
pub open spec fn on_image(s: PipelineView, outcome: RecognitionView, token: Seq<char>, now: u64)
    -> Transition {
    finish(
        s,
        image_result(current(s).filename, outcome, elapsed(s.started, now)),
        Seq::empty(),
        token,
        now,
    )
}

/// The step that `event` causes in state `s`. `token` is a fresh identifier
/// for the files that the step may name and `now` the reading of the
/// driver's clock, in milliseconds. An event that the phase does not wait
/// for changes nothing.
pub open spec fn next(s: PipelineView, event: EventView, token: Seq<char>, now: u64)
    -> Transition {
    match (s.phase, event) {
        (Phase::Queued, EventView::Start) => begin(s, Seq::empty(), token, now),
        (Phase::Converting, EventView::ConverterExited(exit)) => on_converter_exit(
            s,
            exit,
            token,
            now,
        ),
        (Phase::ProbingWide, EventView::Probed(found)) => on_probed(s, found, token, now),
        (Phase::ProbingNarrow, EventView::Probed(found)) => on_probed(s, found, token, now),
        (Phase::Converted, EventView::Resume) => on_resume(s, token, now),
        (Phase::Recognizing, EventView::Recognized(outcome)) => on_page(s, outcome, token, now),
        (Phase::RecognizingImage, EventView::Recognized(outcome)) => on_image(
            s,
            outcome,
            token,
            now,
        ),
        _ => ignore(s),
    }
}

/// Whether a step has happened as `t` says: the pipeline is in `t`'s state,
/// the driver got `t`'s step, and the store `before` the step has become the
/// store `after` it by the one write that `t` publishes, if it publishes.
pub open spec fn carried_out(
    t: Transition,
    before: Map<Seq<char>, ProgressView>,
    after: Map<Seq<char>, ProgressView>,
    state: PipelineView,
    step: StepView,
) -> bool {
    &&& state == t.state
    &&& step == t.step
    &&& after == match t.publish {
        Some(status) => before.insert(t.state.session, status),
        None => before,
    }
}

/// Whether a file is being worked on in `phase`.
pub open spec fn in_progress(phase: Phase) -> bool {
    phase != Phase::Queued && phase != Phase::Complete
}

/// The page counter that pollers see for the file that is being worked on:
/// the number of the page that is being recognized, and 0 before the first.
pub open spec fn shown_current(s: PipelineView) -> usize {
    if s.phase == Phase::Recognizing {
        (s.cursor + 1) as usize
    } else {
        0
    }
}

/// The page count that pollers see for the file that is being worked on: 0
/// until the document's pages are known.
pub open spec fn shown_total(s: PipelineView) -> usize {
    if s.phase == Phase::Recognizing || s.phase == Phase::Converted {
        s.pages.len() as usize
    } else {
        0
    }
}

/// Whether `phase` is one of those that a document goes through.
pub open spec fn document_phase(phase: Phase) -> bool {
    in_progress(phase) && phase != Phase::RecognizingImage
}

/// What holds of every state that the machine reaches: each file that is
/// done has its result, in the files' order and under the file's name, a
/// file is being worked on exactly between `Queued` and `Complete`, in a
/// phase of its kind, and the lists have lengths that a machine can hold.
pub open spec fn consistent(s: PipelineView) -> bool {
    &&& s.pages.len() <= usize::MAX
    &&& s.artifacts.len() <= usize::MAX
    &&& s.results.len() <= s.artifacts.len()
    &&& forall|i: int|
        0 <= i < s.results.len() ==> (#[trigger] s.results[i]).filename == s.artifacts[i].filename
    &&& s.phase == Phase::Complete ==> s.results.len() == s.artifacts.len()
    &&& in_progress(s.phase) ==> s.results.len() < s.artifacts.len()
    &&& document_phase(s.phase) ==> current(s).kind == ArtifactKind::Pdf
    &&& s.phase == Phase::RecognizingImage ==> current(s).kind == ArtifactKind::Image
    &&& s.phase == Phase::Converted ==> 0 < s.pages.len()
    &&& s.phase == Phase::Recognizing ==> s.cursor < s.pages.len()
}

} // verus!
