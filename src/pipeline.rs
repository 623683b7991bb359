//! The episode pipeline: how the outcome of each phase is recorded on an
//! episode, which step a single-episode run takes next, how a batch phase
//! applies its outcomes, and how many downloads may run at once.

use vstd::prelude::*;
use crate::models::{Episode, EpisodeStatus, StatusView};
use crate::strings::opt_view;

verus! {

/// A phase of the pipeline that runs per episode.
#[derive(Debug, Clone, Copy, PartialEq, Eq)]
pub enum Phase {
    Download,
    Transcribe,
    Summarize,
}

/// The tag that a failure reason of a phase starts with.
pub open spec fn phase_tag(p: Phase) -> Seq<char> {
    match p {
        Phase::Download => seq!['d', 'o', 'w', 'n', 'l', 'o', 'a', 'd'],
        Phase::Transcribe => seq!['t', 'r', 'a', 'n', 's', 'c', 'r', 'i', 'b', 'e'],
        Phase::Summarize => seq!['s', 'u', 'm', 'm', 'a', 'r', 'i', 'z', 'e'],
    }
}

/// The reason recorded when `p` fails with `cause`: `"<phase>: <cause>"`.
pub open spec fn failure_reason(p: Phase, cause: Seq<char>) -> Seq<char> {
    phase_tag(p) + seq![':', ' '] + cause
}

/// The position of a status along `New -> Downloaded -> Transcribed ->
/// Summarized`; a failed status has none.
pub open spec fn rank(s: StatusView) -> int {
    match s {
        StatusView::New => 0,
        StatusView::Downloaded => 1,
        StatusView::Transcribed => 2,
        StatusView::Summarized => 3,
        StatusView::Failed(_) => -1,
    }
}

/// The rank that an episode reaches when a phase succeeds.
pub open spec fn phase_rank(p: Phase) -> int {
    match p {
        Phase::Download => 1,
        Phase::Transcribe => 2,
        Phase::Summarize => 3,
    }
}

/// Every status past `New` has the artifacts of the phases before it
/// recorded: audio for `Downloaded`, audio and transcript after that.
pub open spec fn artifacts_recorded(e: Episode) -> bool {
    match e.status@ {
        StatusView::Downloaded => e.audio_path is Some,
        StatusView::Transcribed | StatusView::Summarized => e.audio_path is Some
            && e.transcript_path is Some,
        _ => true,
    }
}

/// The fields that no phase changes are equal.
pub open spec fn same_identity(a: Episode, b: Episode) -> bool {
    &&& a.id == b.id
    &&& a.podcast_id == b.podcast_id
    &&& a.guid == b.guid
    &&& a.title == b.title
    &&& a.description == b.description
    &&& a.audio_url == b.audio_url
    &&& a.published_at == b.published_at
    &&& a.duration_secs == b.duration_secs
    &&& a.discovered_at == b.discovered_at
}

/// `after` is `before` with the outcome of phase `p` recorded. On success
/// the artifact (audio path, transcript path) is recorded and the status
/// becomes the phase's own; on failure the status becomes `Failed` with the
/// phase-tagged cause and the artifacts stay as they were.
pub open spec fn outcome_recorded(
    before: Episode,
    after: Episode,
    p: Phase,
    outcome: Result<Seq<char>, Seq<char>>,
) -> bool {
    &&& same_identity(before, after)
    &&& match outcome {
        Ok(artifact) => match p {
            Phase::Download => {
                &&& after.status@ == StatusView::Downloaded
                &&& opt_view(after.audio_path) == Some(artifact)
                &&& after.transcript_path == before.transcript_path
            },
            Phase::Transcribe => {
                &&& after.status@ == StatusView::Transcribed
                &&& after.audio_path == before.audio_path
                &&& opt_view(after.transcript_path) == Some(artifact)
            },
            Phase::Summarize => {
                &&& after.status@ == StatusView::Summarized
                &&& after.audio_path == before.audio_path
                &&& after.transcript_path == before.transcript_path
            },
        },
        Err(cause) => {
            &&& after.status@ == StatusView::Failed(failure_reason(p, cause))
            &&& after.audio_path == before.audio_path
            &&& after.transcript_path == before.transcript_path
        },
    }
}

/// An outcome with its texts as characters.
pub open spec fn result_view(r: Result<String, String>) -> Result<Seq<char>, Seq<char>> {
    match r {
        Ok(a) => Ok(a@),
        Err(c) => Err(c@),
    }
}

/// Builds the failure reason of phase `p` for `cause`.
pub fn failure_text(p: Phase, cause: &str) -> (r: String)
    ensures
        r@ == failure_reason(p, cause@),
{
    let mut r = match p {
        Phase::Download => {
            proof {
                reveal_strlit("download: ");
            }
            String::from_str("download: ")
        },
        Phase::Transcribe => {
            proof {
                reveal_strlit("transcribe: ");
            }
            String::from_str("transcribe: ")
        },
        Phase::Summarize => {
            proof {
                reveal_strlit("summarize: ");
            }
            String::from_str("summarize: ")
        },
    };
    assert(r@ =~= phase_tag(p) + seq![':', ' ']);
    r.append(cause);
    r
}

/// Records on `ep` the outcome of phase `p`: the artifact it produced, or
/// the cause of its failure.
pub fn record_outcome(ep: &mut Episode, p: Phase, outcome: &Result<String, String>)
    ensures
        outcome_recorded(*old(ep), *final(ep), p, result_view(*outcome)),
{
    match outcome {
        Ok(artifact) => match p {
            Phase::Download => {
                ep.audio_path = Some(artifact.clone());
                ep.status = EpisodeStatus::Downloaded;
            },
            Phase::Transcribe => {
                ep.transcript_path = Some(artifact.clone());
                ep.status = EpisodeStatus::Transcribed;
            },
            Phase::Summarize => {
                ep.status = EpisodeStatus::Summarized;
            },
        },
        Err(cause) => {
            ep.status = EpisodeStatus::Failed(failure_text(p, cause.as_str()));
        },
    }
}

/// What a single-episode run does next.
#[derive(Debug, Clone, Copy, PartialEq, Eq)]
pub enum SingleStep {
    /// Fetch the audio and record its path.
    Download,
    /// Run recognition on the recorded audio and record the transcript path.
    Transcribe,
    /// Generate a summary of the recorded transcript.
    Summarize,
    /// Nothing is left to do.
    Done,
}

/// What is known on disk and in the store about an episode when the next
/// step of a single-episode run is chosen.
#[derive(Debug, Clone, Copy, PartialEq, Eq)]
pub struct Artifacts {
    /// The recorded audio path names a file that exists.
    pub audio_on_disk: bool,
    /// The recorded transcript path names a file that exists.
    pub transcript_on_disk: bool,
    /// A summary of the episode is stored.
    pub has_summary: bool,
}

/// The step a single-episode run takes next: each phase is skipped when its
/// artifact is recorded and present, and a download-only run stops once the
/// audio is there.
pub open spec fn single_step(e: Episode, a: Artifacts, download_only: bool) -> SingleStep {
    if !(e.audio_path is Some && a.audio_on_disk) {
        SingleStep::Download
    } else if download_only {
        SingleStep::Done
    } else if !(e.transcript_path is Some && a.transcript_on_disk) {
        SingleStep::Transcribe
    } else if a.has_summary {
        SingleStep::Done
    } else {
        SingleStep::Summarize
    }
}

/// Chooses the next step of a single-episode run.
pub fn next_single_step(ep: &Episode, artifacts: Artifacts, download_only: bool) -> (r: SingleStep)
    ensures
        r == single_step(*ep, artifacts, download_only),
{
    if !(ep.audio_path.is_some() && artifacts.audio_on_disk) {
        SingleStep::Download
    } else if download_only {
        SingleStep::Done
    } else if !(ep.transcript_path.is_some() && artifacts.transcript_on_disk) {
        SingleStep::Transcribe
    } else if artifacts.has_summary {
        SingleStep::Done
    } else {
        SingleStep::Summarize
    }
}

/// `after` is `before` with its transcript forgotten: no transcript path,
/// status `Downloaded`, the audio kept.
pub open spec fn results_cleared(before: Episode, after: Episode) -> bool {
    &&& same_identity(before, after)
    &&& after.status@ == StatusView::Downloaded
    &&& after.audio_path == before.audio_path
    &&& after.transcript_path is None
}

/// Forgets the transcript of an episode so that it is transcribed and
/// summarized again: the transcript path is cleared and the status goes back
/// to `Downloaded`. The caller deletes the transcript file and the stored
/// summaries.
pub fn clear_results(ep: &mut Episode)
    ensures
        results_cleared(*old(ep), *final(ep)),
{
    ep.transcript_path = None;
    ep.status = EpisodeStatus::Downloaded;
}

/// The entries of `selected` whose outcome is a success, in their order.
pub open spec fn successes(selected: Seq<usize>, outcomes: Seq<Result<String, String>>) -> Seq<usize>
    decreases selected.len(),
{
    if selected.len() == 0 || outcomes.len() == 0 {
        seq![]
    } else {
        let rest = successes(selected.drop_last(), outcomes.drop_last());
        if outcomes.last() is Ok {
            rest.push(selected.last())
        } else {
            rest
        }
    }
}

/// Each entry is larger than the ones before it.
pub open spec fn strictly_increasing(s: Seq<usize>) -> bool {
    forall|a: int, b: int| 0 <= a < b < s.len() ==> s[a] < s[b]
}

/// `after` is `before` with the outcomes of one batch phase recorded:
/// `outcomes[k]` on episode `selected[k]`, nothing on the others.
pub open spec fn phase_applied(
    before: Seq<Episode>,
    after: Seq<Episode>,
    p: Phase,
    selected: Seq<usize>,
    outcomes: Seq<Result<String, String>>,
) -> bool {
    &&& after.len() == before.len()
    &&& forall|k: int|
        0 <= k < selected.len() ==> outcome_recorded(
            #[trigger] before[selected[k] as int],
            after[selected[k] as int],
            p,
            result_view(outcomes[k]),
        )
    &&& forall|i: usize|
        i < before.len() && !selected.contains(i) ==> #[trigger] after[i as int] == before[i as int]
}

/// Applies the outcomes of one batch phase. `selected` holds, in discovery
/// order, the indices of the episodes that take part, and `outcomes[k]` is
/// the outcome for `selected[k]`. Each of those episodes gets its outcome
/// recorded, the others are left alone, and the result holds, in the same
/// order, the indices of the episodes whose phase succeeded: those go on to
/// the next phase. A failure never stops the others.
pub fn apply_phase(
    eps: &mut Vec<Episode>,
    p: Phase,
    selected: &Vec<usize>,
    outcomes: &Vec<Result<String, String>>,
) -> (succeeded: Vec<usize>)
    requires
        selected@.len() == outcomes@.len(),
        strictly_increasing(selected@),
        forall|k: int| 0 <= k < selected@.len() ==> selected@[k] < old(eps)@.len(),
    ensures
        phase_applied(old(eps)@, final(eps)@, p, selected@, outcomes@),
        succeeded@ == successes(selected@, outcomes@),
        strictly_increasing(succeeded@),
        forall|j: int| 0 <= j < succeeded@.len() ==> #[trigger] succeeded@[j] < final(eps)@.len(),
{
    let mut succeeded: Vec<usize> = Vec::new();
    let mut k: usize = 0;
    while k < selected.len()
        invariant
            selected@.len() == outcomes@.len(),
            strictly_increasing(selected@),
            forall|j: int| 0 <= j < selected@.len() ==> selected@[j] < old(eps)@.len(),
            0 <= k <= selected@.len(),
            eps@.len() == old(eps)@.len(),
            forall|j: int|
                0 <= j < k ==> outcome_recorded(
                    #[trigger] old(eps)@[selected@[j] as int],
                    eps@[selected@[j] as int],
                    p,
                    result_view(outcomes@[j]),
                ),
            forall|i: usize|
                i < old(eps)@.len() && !selected@.subrange(0, k as int).contains(i)
                    ==> #[trigger] eps@[i as int] == old(eps)@[i as int],
            succeeded@ == successes(selected@.subrange(0, k as int), outcomes@.subrange(0, k as int)),
            strictly_increasing(succeeded@),
            forall|j: int| 0 <= j < succeeded@.len() ==> #[trigger] succeeded@[j] < eps@.len(),
            k < selected@.len() ==> forall|j: int|
                0 <= j < succeeded@.len() ==> #[trigger] succeeded@[j] < selected@[k as int],
        decreases selected@.len() - k,
    {
        let idx = selected[k];
        let ghost prev = eps@;
        record_outcome(&mut eps[idx], p, &outcomes[k]);
        if outcomes[k].is_ok() {
            succeeded.push(idx);
        }
        if k + 1 < selected.len() {
            assert(selected@[k as int] < selected@[k + 1]);
        }
        proof {
            let s1 = selected@.subrange(0, k + 1);
            let o1 = outcomes@.subrange(0, k + 1);
            assert(s1.drop_last() =~= selected@.subrange(0, k as int));
            assert(o1.drop_last() =~= outcomes@.subrange(0, k as int));
            assert forall|i: usize|
                i < old(eps)@.len() && !s1.contains(i) implies #[trigger] eps@[i as int]
                == old(eps)@[i as int] by {
                assert(s1[k as int] == idx);
                if selected@.subrange(0, k as int).contains(i) {
                    let j = choose|j: int| 0 <= j < k && selected@.subrange(0, k as int)[j] == i;
                    assert(s1[j] == i);
                }
                assert(eps@[i as int] == prev[i as int]);
            }
            assert forall|j: int| 0 <= j < k implies selected@[j] != idx by {}
        }
        k = k + 1;
    }
    assert(selected@.subrange(0, k as int) =~= selected@);
    assert(outcomes@.subrange(0, k as int) =~= outcomes@);
    succeeded
}

/// Admission of downloads over a fixed list of episodes, taken in discovery
/// order, with at most `limit` of them in flight at any time. A download is
/// started by `try_start` and ends with `finish`, whether it succeeded or
/// failed, so that each slot is given back exactly once.
pub struct DownloadScheduler {
    limit: usize,
    total: usize,
    started: usize,
    in_flight: usize,
}

impl DownloadScheduler {
    /// The largest number of downloads that may run at once.
    pub closed spec fn limit_spec(&self) -> nat {
        self.limit as nat
    }

    /// The number of episodes to download.
    pub closed spec fn total_spec(&self) -> nat {
        self.total as nat
    }

    /// The number of downloads started so far; they are the first ones of
    /// the list.
    pub closed spec fn started_spec(&self) -> nat {
        self.started as nat
    }

    /// The number of downloads started and not yet finished.
    pub closed spec fn in_flight_spec(&self) -> nat {
        self.in_flight as nat
    }

    pub closed spec fn wf(&self) -> bool {
        &&& 0 < self.limit
        &&& self.in_flight <= self.limit
        &&& self.in_flight <= self.started <= self.total
    }

    /// A scheduler for `total` downloads with at most `limit` at once.
    pub fn new(limit: usize, total: usize) -> (r: Self)
        requires
            limit > 0,
        ensures
            r.wf(),
            r.limit_spec() == limit,
            r.total_spec() == total,
            r.started_spec() == 0,
            r.in_flight_spec() == 0,
    {
        DownloadScheduler { limit, total, started: 0, in_flight: 0 }
    }

    /// Starts the next download if a slot is free and one is left: returns
    /// its index in the list, or `None` when the caller must wait for a
    /// download to finish or all have started.
    pub fn try_start(&mut self) -> (r: Option<usize>)
        requires
            old(self).wf(),
        ensures
            final(self).wf(),
            final(self).limit_spec() == old(self).limit_spec(),
            final(self).total_spec() == old(self).total_spec(),
            r is Some <==> (old(self).in_flight_spec() < old(self).limit_spec()
                && old(self).started_spec() < old(self).total_spec()),
            r is Some ==> {
                &&& r->0 == old(self).started_spec()
                &&& final(self).started_spec() == old(self).started_spec() + 1
                &&& final(self).in_flight_spec() == old(self).in_flight_spec() + 1
            },
            r is None ==> {
                &&& final(self).started_spec() == old(self).started_spec()
                &&& final(self).in_flight_spec() == old(self).in_flight_spec()
            },
    {
        if self.in_flight < self.limit && self.started < self.total {
            let i = self.started;
            self.started = self.started + 1;
            self.in_flight = self.in_flight + 1;
            Some(i)
        } else {
            None
        }
    }

    /// Gives back the slot of a download that ended.
    pub fn finish(&mut self)
        requires
            old(self).wf(),
            old(self).in_flight_spec() > 0,
        ensures
            final(self).wf(),
            final(self).limit_spec() == old(self).limit_spec(),
            final(self).total_spec() == old(self).total_spec(),
            final(self).started_spec() == old(self).started_spec(),
            final(self).in_flight_spec() == old(self).in_flight_spec() - 1,
    {
        self.in_flight = self.in_flight - 1;
    }

    /// The number of downloads in flight.
    pub fn in_flight(&self) -> (r: usize)
        ensures
            r == self.in_flight_spec(),
    {
        self.in_flight
    }

    /// Whether every download has started and finished.
    pub fn is_done(&self) -> (r: bool)
        ensures
            r == (self.started_spec() == self.total_spec() && self.in_flight_spec() == 0),
    {
        self.started == self.total && self.in_flight == 0
    }

    /// However starts and finishes interleave, no more than `limit`
    /// downloads are in flight.
    pub proof fn lemma_in_flight_bounded(&self)
        requires
            self.wf(),
        ensures
            self.in_flight_spec() <= self.limit_spec(),
            self.started_spec() <= self.total_spec(),
    {
    }
}

/// A phase outcome moves an episode along `New -> Downloaded -> Transcribed
/// -> Summarized` or to `Failed`: on success the status is the phase's own,
/// one step past the phase's predecessor, and the artifacts of every phase up
/// to it are recorded. A single-episode run only chooses a phase whose
/// predecessor's artifact is recorded.
pub proof fn lemma_status_follows_chain(
    before: Episode,
    after: Episode,
    p: Phase,
    outcome: Result<Seq<char>, Seq<char>>,
    a: Artifacts,
    download_only: bool,
)
    requires
        outcome_recorded(before, after, p, outcome),
        artifacts_recorded(before),
        p == Phase::Transcribe ==> before.audio_path is Some,
        p == Phase::Summarize ==> before.audio_path is Some && before.transcript_path is Some,
    ensures
        after.status@ is Failed || rank(after.status@) == phase_rank(p),
        rank(before.status@) == phase_rank(p) - 1 ==> after.status@ is Failed || rank(
            after.status@,
        ) == rank(before.status@) + 1,
        outcome is Ok ==> !(after.status@ is Failed),
        artifacts_recorded(after),
        single_step(before, a, download_only) == SingleStep::Transcribe ==> before.audio_path is Some,
        single_step(before, a, download_only) == SingleStep::Summarize ==> before.audio_path is Some
            && before.transcript_path is Some,
{
}

/// A phase whose artifact is recorded and present on disk is not run again
/// by a single-episode run, so no download or recognition call is made for
/// it and the status stays as it is.
pub proof fn lemma_present_artifacts_skipped(e: Episode, a: Artifacts, download_only: bool)
    ensures
        e.audio_path is Some && a.audio_on_disk ==> single_step(e, a, download_only)
            != SingleStep::Download,
        e.transcript_path is Some && a.transcript_on_disk ==> single_step(e, a, download_only)
            != SingleStep::Transcribe,
{
}

/// A redo forgets the transcript and sets the status back to `Downloaded`;
/// with the transcript and summary deleted, the run transcribes again, then
/// summarizes, and ends `Summarized` with the fresh transcript recorded.
pub proof fn lemma_redo_regenerates(
    before: Episode,
    cleared: Episode,
    transcribed: Episode,
    summarized: Episode,
    a: Artifacts,
    transcript: Seq<char>,
    summary: Seq<char>,
)
    requires
        before.audio_path is Some,
        a.audio_on_disk,
        !a.has_summary,
        results_cleared(before, cleared),
        outcome_recorded(cleared, transcribed, Phase::Transcribe, Ok(transcript)),
        outcome_recorded(transcribed, summarized, Phase::Summarize, Ok(summary)),
    ensures
        cleared.status@ == StatusView::Downloaded,
        cleared.transcript_path is None,
        single_step(cleared, a, false) == SingleStep::Transcribe,
        single_step(transcribed, Artifacts { transcript_on_disk: true, ..a }, false)
            == SingleStep::Summarize,
        summarized.status@ == StatusView::Summarized,
        opt_view(summarized.transcript_path) == Some(transcript),
        summarized.audio_path == before.audio_path,
{
}

proof fn lemma_successes_all_ok(selected: Seq<usize>, outcomes: Seq<Result<String, String>>)
    requires
        selected.len() == outcomes.len(),
        forall|k: int| 0 <= k < outcomes.len() ==> #[trigger] outcomes[k] is Ok,
    ensures
        successes(selected, outcomes) == selected,
    decreases selected.len(),
{
    if selected.len() > 0 {
        lemma_successes_all_ok(selected.drop_last(), outcomes.drop_last());
        assert(successes(selected.drop_last(), outcomes.drop_last()).push(selected.last())
            =~= selected);
    }
}

proof fn lemma_successes_member(
    selected: Seq<usize>,
    outcomes: Seq<Result<String, String>>,
    x: usize,
)
    requires
        selected.len() == outcomes.len(),
    ensures
        successes(selected, outcomes).contains(x) <==> exists|k: int|
            0 <= k < selected.len() && selected[k] == x && #[trigger] outcomes[k] is Ok,
    decreases selected.len(),
{
    if selected.len() > 0 {
        let n = selected.len() - 1;
        lemma_successes_member(selected.drop_last(), outcomes.drop_last(), x);
        let rest = successes(selected.drop_last(), outcomes.drop_last());
        if successes(selected, outcomes).contains(x) {
            if rest.contains(x) {
                let k = choose|k: int|
                    0 <= k < n && selected.drop_last()[k] == x
                        && #[trigger] outcomes.drop_last()[k] is Ok;
                assert(outcomes[k] is Ok);
            } else {
                assert(outcomes[n] is Ok);
            }
        }
        if exists|k: int| 0 <= k < selected.len() && selected[k] == x && #[trigger] outcomes[k] is Ok {
            let k = choose|k: int|
                0 <= k < selected.len() && selected[k] == x && #[trigger] outcomes[k] is Ok;
            if k < n {
                assert(outcomes.drop_last()[k] is Ok);
                assert(rest.contains(x));
                if outcomes.last() is Ok {
                    assert(rest.push(selected.last())[rest.index_of(x)] == x);
                }
            } else {
                assert(successes(selected, outcomes) == rest.push(x));
                assert(rest.push(x)[rest.len() as int] == x);
            }
        }
    }
}

/// The indices of a batch of `n` episodes in discovery order.
pub open spec fn all_indices(n: nat) -> Seq<usize> {
    Seq::new(n, |i: int| i as usize)
}

/// In a batch where exactly one download fails and every later phase
/// succeeds, every other episode is transcribed and then summarized, and
/// the failed one is `Failed("download: ...")` through to the end.
pub proof fn lemma_batch_isolation(
    discovered: Seq<Episode>,
    downloaded: Seq<Episode>,
    transcribed: Seq<Episode>,
    summarized: Seq<Episode>,
    download_outcomes: Seq<Result<String, String>>,
    transcribe_outcomes: Seq<Result<String, String>>,
    summary_outcomes: Seq<Result<String, String>>,
    failed: int,
)
    requires
        discovered.len() < usize::MAX,
        download_outcomes.len() == discovered.len(),
        0 <= failed < discovered.len(),
        download_outcomes[failed] is Err,
        forall|i: int|
            0 <= i < discovered.len() && i != failed ==> #[trigger] download_outcomes[i] is Ok,
        phase_applied(
            discovered,
            downloaded,
            Phase::Download,
            all_indices(discovered.len()),
            download_outcomes,
        ),
        transcribe_outcomes.len() == successes(all_indices(discovered.len()), download_outcomes).len(),
        forall|k: int| 0 <= k < transcribe_outcomes.len() ==> #[trigger] transcribe_outcomes[k] is Ok,
        phase_applied(
            downloaded,
            transcribed,
            Phase::Transcribe,
            successes(all_indices(discovered.len()), download_outcomes),
            transcribe_outcomes,
        ),
        summary_outcomes.len() == transcribe_outcomes.len(),
        forall|k: int| 0 <= k < summary_outcomes.len() ==> #[trigger] summary_outcomes[k] is Ok,
        phase_applied(
            transcribed,
            summarized,
            Phase::Summarize,
            successes(successes(all_indices(discovered.len()), download_outcomes), transcribe_outcomes),
            summary_outcomes,
        ),
    ensures
        summarized.len() == discovered.len(),
        forall|i: int|
            0 <= i < discovered.len() && i != failed ==> #[trigger] transcribed[i].status@
                == StatusView::Transcribed && summarized[i].status@ == StatusView::Summarized,
        summarized[failed].status@ == StatusView::Failed(
            failure_reason(Phase::Download, download_outcomes[failed]->Err_0@),
        ),
{
    let all = all_indices(discovered.len());
    let t = successes(all, download_outcomes);
    lemma_successes_all_ok(t, transcribe_outcomes);
    assert(successes(t, transcribe_outcomes) == t);
    assert(outcome_recorded(discovered[all[failed] as int], downloaded[all[failed] as int], Phase::Download, result_view(download_outcomes[failed])));
    lemma_successes_member(all, download_outcomes, failed as usize);
    assert(!t.contains(failed as usize));
    assert(transcribed[failed] == downloaded[failed]);
    assert(summarized[failed] == transcribed[failed]);
    assert forall|i: int|
        0 <= i < discovered.len() && i != failed implies #[trigger] transcribed[i].status@
            == StatusView::Transcribed && summarized[i].status@ == StatusView::Summarized by {
        lemma_successes_member(all, download_outcomes, i as usize);
        assert(all[i] == i as usize);
        assert(download_outcomes[i] is Ok);
        assert(t.contains(i as usize));
        let k = choose|k: int| 0 <= k < t.len() && t[k] == i as usize;
        assert(outcome_recorded(downloaded[t[k] as int], transcribed[t[k] as int], Phase::Transcribe, result_view(transcribe_outcomes[k])));
        assert(outcome_recorded(transcribed[t[k] as int], summarized[t[k] as int], Phase::Summarize, result_view(summary_outcomes[k])));
    }
}

} // verus!
