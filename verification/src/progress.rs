//! The snapshots that a polling client sees, and the store that keeps the
//! latest snapshot of every session.

use vstd::hash_map::StringHashMap;
use vstd::prelude::*;

verus! {

/// What became of one uploaded file.
#[derive(Debug, PartialEq, Eq)]
pub struct OcrResult {
    /// The name under which the file was uploaded.
    pub filename: String,
    /// The text that was recognized; empty when nothing was.
    pub text: String,
    pub success: bool,
    /// Why the file failed; `None` on success.
    pub error: Option<String>,
    pub pages_processed: Option<usize>,
    pub total_pages: Option<usize>,
    /// The time that recognition took, in milliseconds.
    pub elapsed_millis: Option<u64>,
}

/// An [`OcrResult`] as a mathematical value.
#[verifier::ext_equal]
pub struct OcrResultView {
    pub filename: Seq<char>,
    pub text: Seq<char>,
    pub success: bool,
    pub error: Option<Seq<char>>,
    pub pages_processed: Option<usize>,
    pub total_pages: Option<usize>,
    pub elapsed_millis: Option<u64>,
}

impl View for OcrResult {
    type V = OcrResultView;

    open spec fn view(&self) -> OcrResultView {
        OcrResultView {
            filename: self.filename@,
            text: self.text@,
            success: self.success,
            error: match self.error {
                Some(e) => Some(e@),
                None => None,
            },
            pages_processed: self.pages_processed,
            total_pages: self.total_pages,
            elapsed_millis: self.elapsed_millis,
        }
    }
}

impl Clone for OcrResult {
    fn clone(&self) -> (copy: Self)
        ensures
            copy@ == self@,
    {
        OcrResult {
            filename: self.filename.clone(),
            text: self.text.clone(),
            success: self.success,
            error: match &self.error {
                Some(e) => Some(e.clone()),
                None => None,
            },
            pages_processed: self.pages_processed,
            total_pages: self.total_pages,
            elapsed_millis: self.elapsed_millis,
        }
    }
}

/// The results of a batch as mathematical values, in their order.
pub open spec fn result_views(results: Seq<OcrResult>) -> Seq<OcrResultView> {
    results.map_values(|r: OcrResult| r@)
}

/// A copy of `results`.
pub fn clone_results(results: &Vec<OcrResult>) -> (copy: Vec<OcrResult>)
    ensures
        result_views(copy@) == result_views(results@),
{
    let mut copy: Vec<OcrResult> = Vec::new();
    let mut i: usize = 0;
    while i < results.len()
        invariant
            i <= results.len(),
            copy.len() == i,
            result_views(copy@) == result_views(results@.take(i as int)),
        decreases results.len() - i,
    {
        let ghost before = copy@;
        copy.push(results[i].clone());
        i += 1;
        assert forall|j: int| 0 <= j < i implies result_views(copy@)[j] == result_views(
            results@.take(i as int),
        )[j] by {
            if j < i - 1 {
                assert(result_views(before)[j] == result_views(results@.take(i - 1))[j]);
            }
        }
        assert(result_views(copy@) =~= result_views(results@.take(i as int)));
    }
    assert(results@.take(results.len() as int) =~= results@);
    copy
}

/// One snapshot of a session's progress.
#[derive(Debug, PartialEq, Eq)]
pub struct ProgressStatus {
    /// The name of the stage that the session is in.
    pub stage: String,
    pub current: usize,
    /// 0 while the total is not known yet.
    pub total: usize,
    pub message: String,
    /// Whether this is the session's last snapshot.
    pub complete: bool,
    /// One result per accepted file; empty until the session is complete.
    pub results: Vec<OcrResult>,
}

/// A [`ProgressStatus`] as a mathematical value.
#[verifier::ext_equal]
pub struct ProgressView {
    pub stage: Seq<char>,
    pub current: usize,
    pub total: usize,
    pub message: Seq<char>,
    pub complete: bool,
    pub results: Seq<OcrResultView>,
}

impl View for ProgressStatus {
    type V = ProgressView;

    open spec fn view(&self) -> ProgressView {
        ProgressView {
            stage: self.stage@,
            current: self.current,
            total: self.total,
            message: self.message@,
            complete: self.complete,
            results: result_views(self.results@),
        }
    }
}

impl Clone for ProgressStatus {
    fn clone(&self) -> (copy: Self)
        ensures
            copy@ == self@,
    {
        ProgressStatus {
            stage: self.stage.clone(),
            current: self.current,
            total: self.total,
            message: self.message.clone(),
            complete: self.complete,
            results: clone_results(&self.results),
        }
    }
}

/// The latest snapshot of every session, by session id. A write replaces the
/// session's snapshot as a whole; nothing is ever removed.
pub struct ProgressTracker {
    sessions: StringHashMap<ProgressStatus>,
}

impl View for ProgressTracker {
    type V = Map<Seq<char>, ProgressView>;

    closed spec fn view(&self) -> Map<Seq<char>, ProgressView> {
        self.sessions@.map_values(|s: ProgressStatus| s@)
    }
}

impl ProgressTracker {
    /// A store that knows no session.
    pub fn new() -> (tracker: Self)
        ensures
            tracker@ == Map::<Seq<char>, ProgressView>::empty(),
    {
        let tracker = ProgressTracker { sessions: StringHashMap::new() };
        assert(tracker@ =~= Map::<Seq<char>, ProgressView>::empty());
        tracker
    }

    /// Makes `state` the snapshot of `session_id`, in place of the one it had.
    pub fn write(&mut self, session_id: &str, state: ProgressStatus)
        ensures
            final(self)@ == old(self)@.insert(session_id@, state@),
    {
        self.sessions.insert(String::from_str(session_id), state);
        assert(self@ =~= old(self)@.insert(session_id@, state@));
    }

    /// The latest snapshot of `session_id`; `None` for a session that was
    /// never written.
    pub fn read(&self, session_id: &str) -> (state: Option<ProgressStatus>)
        ensures
            match state {
                Some(s) => self@.contains_key(session_id@) && s@ == self@[session_id@],
                None => !self@.contains_key(session_id@),
            },
    {
        match self.sessions.get(session_id) {
            Some(s) => Some(s.clone()),
            None => None,
        }
    }
}

} // verus!
