//! What holds of every run of a session's pipeline, proved from the
//! machine's definition.

use crate::model::{
    carried_out, consistent, current, document_phase, ignore, initial, next, queued_status,
    recognizing_status, shown_current, shown_total, ArtifactKind, ArtifactView, EventView, Phase,
    PipelineView, StepView,
};
use crate::progress::ProgressView;
use vstd::prelude::*;

verus! {

/// One input of the driver: the event, the identifier that the step may use
/// and the clock reading.
pub struct Input {
    pub event: EventView,
    pub token: Seq<char>,
    pub now: u64,
}

/// The state that `inputs`, taken in their order, lead to from `s`.
pub open spec fn state_after(s: PipelineView, inputs: Seq<Input>) -> PipelineView
    decreases inputs.len(),
{
    if inputs.len() == 0 {
        s
    } else {
        let last = inputs.last();
        next(state_after(s, inputs.drop_last()), last.event, last.token, last.now).state
    }
}

/// The snapshot that the step for `inputs[i]` publishes in a run from `s`.
pub open spec fn published_at(s: PipelineView, inputs: Seq<Input>, i: int) -> Option<ProgressView> {
    let input = inputs[i];
    next(state_after(s, inputs.take(i)), input.event, input.token, input.now).publish
}

/// The place of a phase in the order of the stages that pollers see.
pub open spec fn stage_rank(phase: Phase) -> nat {
    match phase {
        Phase::Queued => 0,
        Phase::Converting => 1,
        Phase::ProbingWide => 1,
        Phase::ProbingNarrow => 1,
        Phase::Converted => 2,
        Phase::Recognizing => 3,
        Phase::RecognizingImage => 3,
        Phase::Complete => 4,
    }
}

/// A step changes neither the session's id nor its files.
pub proof fn law_session_kept(s: PipelineView, event: EventView, token: Seq<char>, now: u64)
    ensures
        next(s, event, token, now).state.session == s.session,
        next(s, event, token, now).state.temp_dir == s.temp_dir,
        next(s, event, token, now).state.artifacts == s.artifacts,
{
}

/// Every step leads from a consistent state to a consistent state.
pub proof fn law_consistency_kept(s: PipelineView, event: EventView, token: Seq<char>, now: u64)
    requires
        consistent(s),
    ensures
        consistent(next(s, event, token, now).state),
{
}

/// A session that was just accepted is in a consistent state, and the
/// snapshot that it is given then shows the counters of that state.
pub proof fn law_initial_consistent(
    session: Seq<char>,
    temp_dir: Seq<char>,
    artifacts: Seq<ArtifactView>,
)
    requires
        artifacts.len() <= usize::MAX,
    ensures
        consistent(initial(session, temp_dir, artifacts)),
        queued_status().current == shown_current(initial(session, temp_dir, artifacts)),
        queued_status().total == shown_total(initial(session, temp_dir, artifacts)),
        !queued_status().complete,
{
}

/// A session that has a snapshot keeps having one: a step writes under the
/// session's id or not at all, and nothing is ever removed.
pub proof fn law_snapshot_stays(
    s: PipelineView,
    event: EventView,
    token: Seq<char>,
    now: u64,
    before: Map<Seq<char>, ProgressView>,
    after: Map<Seq<char>, ProgressView>,
    state: PipelineView,
    step: StepView,
)
    requires
        carried_out(next(s, event, token, now), before, after, state, step),
        before.contains_key(s.session),
    ensures
        after.contains_key(state.session),
        state.session == s.session,
        forall|id: Seq<char>| id != s.session ==> (before.contains_key(id) <==> after.contains_key(id)),
        forall|id: Seq<char>|
            id != s.session && before.contains_key(id) ==> after[id] == before[id],
{
}

/// Every run leads from a consistent state to a consistent state, and
/// changes neither the session's id nor its files.
pub proof fn law_run_consistent(s: PipelineView, inputs: Seq<Input>)
    requires
        consistent(s),
    ensures
        consistent(state_after(s, inputs)),
        state_after(s, inputs).session == s.session,
        state_after(s, inputs).artifacts == s.artifacts,
    decreases inputs.len(),
{
    if inputs.len() > 0 {
        law_run_consistent(s, inputs.drop_last());
        let last = inputs.last();
        law_consistency_kept(state_after(s, inputs.drop_last()), last.event, last.token, last.now);
    }
}

/// In every run of a session from its acceptance, a snapshot with
/// `complete` set holds one result for each accepted file, in the files'
/// order and under the files' names.
pub proof fn law_complete_run_has_all_results(
    session: Seq<char>,
    temp_dir: Seq<char>,
    artifacts: Seq<ArtifactView>,
    inputs: Seq<Input>,
    i: int,
)
    requires
        artifacts.len() <= usize::MAX,
        0 <= i < inputs.len(),
        published_at(initial(session, temp_dir, artifacts), inputs, i) is Some,
        published_at(initial(session, temp_dir, artifacts), inputs, i)->0.complete,
    ensures
        ({
            let status = published_at(initial(session, temp_dir, artifacts), inputs, i)->0;
            &&& status.results.len() == artifacts.len()
            &&& forall|k: int|
                0 <= k < artifacts.len() ==> (#[trigger] status.results[k]).filename
                    == artifacts[k].filename
        }),
{
    let start = initial(session, temp_dir, artifacts);
    let before = state_after(start, inputs.take(i));
    law_run_consistent(start, inputs.take(i));
    let input = inputs[i];
    law_one_result_per_file(
        before,
        input.event,
        input.token,
        input.now,
        published_at(start, inputs, i)->0,
    );
}

/// The snapshot that completes a session holds one result for each accepted
/// file, in the files' order and under the files' names, and it is
/// published by the step that takes the pipeline to `Complete`.
pub proof fn law_one_result_per_file(
    s: PipelineView,
    event: EventView,
    token: Seq<char>,
    now: u64,
    status: ProgressView,
)
    requires
        consistent(s),
        next(s, event, token, now).publish == Some(status),
        status.complete,
    ensures
        s.phase != Phase::Complete,
        next(s, event, token, now).state.phase == Phase::Complete,
        status.results == next(s, event, token, now).state.results,
        status.results.len() == s.artifacts.len(),
        forall|i: int|
            0 <= i < s.artifacts.len() ==> (#[trigger] status.results[i]).filename
                == s.artifacts[i].filename,
{
    law_consistency_kept(s, event, token, now);
}

/// The results grow by one file at a time, and the step that records a
/// file's result has the driver delete the file and, if the file is a
/// document whose pages were recognized, every page image that was found for
/// it. No other step has anything deleted.
pub proof fn law_files_removed(s: PipelineView, event: EventView, token: Seq<char>, now: u64)
    requires
        consistent(s),
    ensures
        ({
            let t = next(s, event, token, now);
            if t.state.results.len() == s.results.len() {
                &&& t.state.results == s.results
                &&& t.step.remove.len() == 0
            } else {
                &&& t.state.results.len() == s.results.len() + 1
                &&& t.state.results.drop_last() == s.results
                &&& t.state.results.last().filename == current(s).filename
                &&& t.step.remove == (if s.phase == Phase::Recognizing {
                    s.pages
                } else {
                    Seq::empty()
                }).push(current(s).path)
            }
        }),
{
    let t = next(s, event, token, now);
    if t.state.results.len() != s.results.len() {
        assert(t.state.results.drop_last() =~= s.results);
    }
}

/// Results are published with the completing snapshot and with no other:
/// a snapshot has `complete` set exactly if its step takes the pipeline to
/// `Complete`, and a snapshot without it holds no results.
pub proof fn law_results_come_last(
    s: PipelineView,
    event: EventView,
    token: Seq<char>,
    now: u64,
    status: ProgressView,
)
    requires
        next(s, event, token, now).publish == Some(status),
    ensures
        status.complete <==> next(s, event, token, now).state.phase == Phase::Complete,
        !status.complete ==> status.results.len() == 0,
{
}

/// A session reaches `Complete` only by a step that publishes the completing
/// snapshot.
pub proof fn law_completion_is_published(
    s: PipelineView,
    event: EventView,
    token: Seq<char>,
    now: u64,
)
    requires
        s.phase != Phase::Complete,
        next(s, event, token, now).state.phase == Phase::Complete,
    ensures
        next(s, event, token, now).publish is Some,
        next(s, event, token, now).publish->0.complete,
{
}

/// Once a session is complete no event changes its state or publishes
/// anything: the completing snapshot stays the session's snapshot.
pub proof fn law_complete_is_final(s: PipelineView, event: EventView, token: Seq<char>, now: u64)
    requires
        s.phase == Phase::Complete,
    ensures
        next(s, event, token, now) == ignore(s),
        next(s, event, token, now).state == s,
        next(s, event, token, now).publish is None,
{
}

proof fn lemma_complete_stays(s: PipelineView, inputs: Seq<Input>, k: int, m: int)
    requires
        0 <= k <= m <= inputs.len(),
        state_after(s, inputs.take(k)).phase == Phase::Complete,
    ensures
        state_after(s, inputs.take(m)).phase == Phase::Complete,
    decreases m - k,
{
    if k < m {
        lemma_complete_stays(s, inputs, k, m - 1);
        assert(inputs.take(m).drop_last() =~= inputs.take(m - 1));
        assert(inputs.take(m).last() == inputs[m - 1]);
    }
}

/// In every run, the snapshot with `complete` set is published at most once
/// and no snapshot is published after it.
pub proof fn law_complete_published_once(s: PipelineView, inputs: Seq<Input>, i: int, j: int)
    requires
        0 <= i < j < inputs.len(),
        published_at(s, inputs, i) is Some,
        published_at(s, inputs, i)->0.complete,
    ensures
        published_at(s, inputs, j) is None,
{
    assert(inputs.take(i + 1).drop_last() =~= inputs.take(i));
    assert(inputs.take(i + 1).last() == inputs[i]);
    assert(state_after(s, inputs.take(i + 1)).phase == Phase::Complete);
    lemma_complete_stays(s, inputs, i + 1, j);
}

/// While the pipeline works on one file neither its stage nor the counters
/// that pollers see go back, and every snapshot that does not complete the
/// session shows the counters of the state that its step leads to.
pub proof fn law_stage_order(s: PipelineView, event: EventView, token: Seq<char>, now: u64)
    requires
        consistent(s),
    ensures
        ({
            let t = next(s, event, token, now);
            &&& s.results.len() <= t.state.results.len()
            &&& t.state.results.len() == s.results.len() ==> {
                &&& stage_rank(s.phase) <= stage_rank(t.state.phase)
                &&& shown_current(s) <= shown_current(t.state)
                &&& shown_total(s) <= shown_total(t.state)
            }
            &&& t.publish is Some && !t.publish->0.complete ==> {
                &&& t.publish->0.current == shown_current(t.state)
                &&& t.publish->0.total == shown_total(t.state)
                &&& t.publish->0.current <= t.publish->0.total
            }
        }),
{
}

proof fn lemma_step_of_run(s: PipelineView, inputs: Seq<Input>, k: int)
    requires
        0 <= k < inputs.len(),
    ensures
        state_after(s, inputs.take(k + 1)) == next(
            state_after(s, inputs.take(k)),
            inputs[k].event,
            inputs[k].token,
            inputs[k].now,
        ).state,
{
    assert(inputs.take(k + 1).drop_last() =~= inputs.take(k));
    assert(inputs.take(k + 1).last() == inputs[k]);
}

proof fn lemma_counters_rise(s: PipelineView, inputs: Seq<Input>, a: int, b: int)
    requires
        consistent(s),
        0 <= a <= b <= inputs.len(),
    ensures
        state_after(s, inputs.take(a)).results.len() <= state_after(
            s,
            inputs.take(b),
        ).results.len(),
        state_after(s, inputs.take(a)).results.len() == state_after(
            s,
            inputs.take(b),
        ).results.len() ==> {
            &&& stage_rank(state_after(s, inputs.take(a)).phase) <= stage_rank(
                state_after(s, inputs.take(b)).phase,
            )
            &&& shown_current(state_after(s, inputs.take(a))) <= shown_current(
                state_after(s, inputs.take(b)),
            )
            &&& shown_total(state_after(s, inputs.take(a))) <= shown_total(
                state_after(s, inputs.take(b)),
            )
        },
    decreases b - a,
{
    if a < b {
        lemma_counters_rise(s, inputs, a, b - 1);
        let before = state_after(s, inputs.take(b - 1));
        law_run_consistent(s, inputs.take(b - 1));
        lemma_step_of_run(s, inputs, b - 1);
        let input = inputs[b - 1];
        law_stage_order(before, input.event, input.token, input.now);
    }
}

/// In every run, of two snapshots that are published while one file is
/// worked on the later one shows no earlier stage and no smaller counter:
/// `current` and `total` never fall before the file is done.
pub proof fn law_counter_never_falls(s: PipelineView, inputs: Seq<Input>, i: int, j: int)
    requires
        consistent(s),
        0 <= i <= j < inputs.len(),
        published_at(s, inputs, i) is Some,
        published_at(s, inputs, j) is Some,
        !published_at(s, inputs, j)->0.complete,
        state_after(s, inputs.take(i + 1)).results.len() == state_after(
            s,
            inputs.take(j + 1),
        ).results.len(),
    ensures
        !published_at(s, inputs, i)->0.complete,
        published_at(s, inputs, i)->0.current <= published_at(s, inputs, j)->0.current,
        published_at(s, inputs, i)->0.total <= published_at(s, inputs, j)->0.total,
        published_at(s, inputs, i)->0.current == shown_current(
            state_after(s, inputs.take(i + 1)),
        ),
        published_at(s, inputs, j)->0.current == shown_current(
            state_after(s, inputs.take(j + 1)),
        ),
{
    if i < j && published_at(s, inputs, i)->0.complete {
        law_complete_published_once(s, inputs, i, j);
    }
    law_run_consistent(s, inputs.take(i));
    law_run_consistent(s, inputs.take(j));
    lemma_step_of_run(s, inputs, i);
    lemma_step_of_run(s, inputs, j);
    law_stage_order(state_after(s, inputs.take(i)), inputs[i].event, inputs[i].token, inputs[i].now);
    law_stage_order(state_after(s, inputs.take(j)), inputs[j].event, inputs[j].token, inputs[j].now);
    lemma_counters_rise(s, inputs, i + 1, j + 1);
}

/// Whether no more than one of `artifacts` is a document.
pub open spec fn one_document_at_most(artifacts: Seq<ArtifactView>) -> bool {
    forall|a: int, b: int|
        0 <= a < artifacts.len() && 0 <= b < artifacts.len() && (#[trigger] artifacts[a]).kind
            == ArtifactKind::Pdf && (#[trigger] artifacts[b]).kind == ArtifactKind::Pdf ==> a == b
}

proof fn lemma_published_for_document(
    s: PipelineView,
    event: EventView,
    token: Seq<char>,
    now: u64,
)
    requires
        consistent(s),
        next(s, event, token, now).publish is Some,
        !next(s, event, token, now).publish->0.complete,
    ensures
        document_phase(next(s, event, token, now).state.phase),
        current(next(s, event, token, now).state).kind == ArtifactKind::Pdf,
        next(s, event, token, now).state.results.len() < s.artifacts.len(),
{
    law_consistency_kept(s, event, token, now);
}

/// In every run of a session with no more than one document among its
/// files, `current` and `total` never fall before the session is complete:
/// only a document publishes counters, and a single image publishes none.
pub proof fn law_counter_of_one_document(s: PipelineView, inputs: Seq<Input>, i: int, j: int)
    requires
        consistent(s),
        one_document_at_most(s.artifacts),
        0 <= i <= j < inputs.len(),
        published_at(s, inputs, i) is Some,
        published_at(s, inputs, j) is Some,
        !published_at(s, inputs, j)->0.complete,
    ensures
        published_at(s, inputs, i)->0.current <= published_at(s, inputs, j)->0.current,
        published_at(s, inputs, i)->0.total <= published_at(s, inputs, j)->0.total,
{
    if i < j && published_at(s, inputs, i)->0.complete {
        law_complete_published_once(s, inputs, i, j);
    }
    law_run_consistent(s, inputs.take(i));
    law_run_consistent(s, inputs.take(j));
    lemma_step_of_run(s, inputs, i);
    lemma_step_of_run(s, inputs, j);
    lemma_published_for_document(
        state_after(s, inputs.take(i)),
        inputs[i].event,
        inputs[i].token,
        inputs[i].now,
    );
    lemma_published_for_document(
        state_after(s, inputs.take(j)),
        inputs[j].event,
        inputs[j].token,
        inputs[j].now,
    );
    let a = state_after(s, inputs.take(i + 1)).results.len() as int;
    let b = state_after(s, inputs.take(j + 1)).results.len() as int;
    assert(s.artifacts[a].kind == ArtifactKind::Pdf);
    assert(s.artifacts[b].kind == ArtifactKind::Pdf);
    law_counter_never_falls(s, inputs, i, j);
}

/// Every snapshot that is published while the pages of a document are
/// recognized counts the page that is about to be recognized, so that the
/// counts that a poller sees in that stage rise by one from 1 to the number
/// of pages.
pub proof fn law_page_counter(s: PipelineView, event: EventView, token: Seq<char>, now: u64)
    requires
        consistent(s),
        next(s, event, token, now) != ignore(s),
        next(s, event, token, now).state.phase == Phase::Recognizing,
    ensures
        next(s, event, token, now).state.results.len() == s.results.len(),
        next(s, event, token, now).publish == Some(
            recognizing_status(
                (next(s, event, token, now).state.cursor + 1) as usize,
                s.pages.len() as usize,
            ),
        ),
        next(s, event, token, now).state.cursor < s.pages.len(),
        next(s, event, token, now).state.cursor == if s.phase == Phase::Recognizing {
            s.cursor + 1
        } else {
            0
        },
{
}

} // verus!
