use podcast_summarize::models::{Episode, EpisodeStatus};
use podcast_summarize::pipeline::{
    apply_phase, clear_results, failure_text, next_single_step, record_outcome, Artifacts,
    DownloadScheduler, Phase, SingleStep,
};

fn episode(id: i64) -> Episode {
    Episode {
        id,
        podcast_id: 1,
        guid: format!("guid-{id}"),
        title: format!("Episode {id}"),
        description: None,
        audio_url: format!("https://ex.com/{id}.mp3"),
        published_at: None,
        duration_secs: Some(3600),
        status: EpisodeStatus::New,
        audio_path: None,
        transcript_path: None,
        discovered_at: 0,
    }
}

fn on_disk(audio: bool, transcript: bool, summary: bool) -> Artifacts {
    Artifacts { audio_on_disk: audio, transcript_on_disk: transcript, has_summary: summary }
}

#[test]
fn outcomes_follow_the_chain() {
    let mut ep = episode(1);
    record_outcome(&mut ep, Phase::Download, &Ok("/a/1.mp3".to_string()));
    assert_eq!(ep.status, EpisodeStatus::Downloaded);
    assert_eq!(ep.audio_path.as_deref(), Some("/a/1.mp3"));
    record_outcome(&mut ep, Phase::Transcribe, &Ok("/t/1.txt".to_string()));
    assert_eq!(ep.status, EpisodeStatus::Transcribed);
    assert_eq!(ep.transcript_path.as_deref(), Some("/t/1.txt"));
    record_outcome(&mut ep, Phase::Summarize, &Ok("summary".to_string()));
    assert_eq!(ep.status, EpisodeStatus::Summarized);
    assert_eq!(ep.audio_path.as_deref(), Some("/a/1.mp3"));
}

#[test]
fn failure_is_phase_tagged() {
    let mut ep = episode(2);
    record_outcome(&mut ep, Phase::Transcribe, &Err("model missing".to_string()));
    assert_eq!(ep.status, EpisodeStatus::Failed("transcribe: model missing".to_string()));
    assert_eq!(failure_text(Phase::Summarize, "401"), "summarize: 401");
    assert_eq!(failure_text(Phase::Download, "timeout"), "download: timeout");
}

#[test]
fn present_artifacts_are_not_redone() {
    let mut ep = episode(3);
    assert_eq!(next_single_step(&ep, on_disk(false, false, false), false), SingleStep::Download);
    ep.audio_path = Some("/a/3.mp3".to_string());
    ep.status = EpisodeStatus::Downloaded;
    assert_eq!(next_single_step(&ep, on_disk(true, false, false), false), SingleStep::Transcribe);
    assert_eq!(next_single_step(&ep, on_disk(true, false, false), true), SingleStep::Done);
    ep.transcript_path = Some("/t/3.txt".to_string());
    assert_eq!(next_single_step(&ep, on_disk(true, true, false), false), SingleStep::Summarize);
    assert_eq!(next_single_step(&ep, on_disk(true, true, true), false), SingleStep::Done);
    // A recorded file that is gone is fetched again.
    assert_eq!(next_single_step(&ep, on_disk(false, true, true), false), SingleStep::Download);
}

#[test]
fn redo_clears_and_regenerates() {
    let mut ep = episode(4);
    ep.audio_path = Some("/a/4.mp3".to_string());
    ep.transcript_path = Some("/t/4.txt".to_string());
    ep.status = EpisodeStatus::Summarized;
    clear_results(&mut ep);
    assert_eq!(ep.status, EpisodeStatus::Downloaded);
    assert!(ep.transcript_path.is_none());
    assert_eq!(ep.audio_path.as_deref(), Some("/a/4.mp3"));
    assert_eq!(next_single_step(&ep, on_disk(true, true, false), false), SingleStep::Transcribe);
    record_outcome(&mut ep, Phase::Transcribe, &Ok("/t/4-new.txt".to_string()));
    assert_eq!(next_single_step(&ep, on_disk(true, true, false), false), SingleStep::Summarize);
    record_outcome(&mut ep, Phase::Summarize, &Ok("fresh".to_string()));
    assert_eq!(ep.status, EpisodeStatus::Summarized);
    assert_eq!(ep.transcript_path.as_deref(), Some("/t/4-new.txt"));
}

#[test]
fn batch_isolates_one_failed_download() {
    let mut eps: Vec<Episode> = (1..=3).map(episode).collect();
    let all = vec![0, 1, 2];
    let downloads = vec![
        Ok("/a/1.mp3".to_string()),
        Err("connection reset".to_string()),
        Ok("/a/3.mp3".to_string()),
    ];
    let downloaded = apply_phase(&mut eps, Phase::Download, &all, &downloads);
    assert_eq!(downloaded, vec![0, 2]);
    let transcripts = vec![Ok("/t/1.txt".to_string()), Ok("/t/3.txt".to_string())];
    let transcribed = apply_phase(&mut eps, Phase::Transcribe, &downloaded, &transcripts);
    assert_eq!(transcribed, vec![0, 2]);
    let summaries = vec![Ok("s1".to_string()), Ok("s3".to_string())];
    let summarized = apply_phase(&mut eps, Phase::Summarize, &transcribed, &summaries);
    assert_eq!(summarized, vec![0, 2]);
    assert_eq!(eps[0].status, EpisodeStatus::Summarized);
    assert_eq!(eps[2].status, EpisodeStatus::Summarized);
    assert_eq!(eps[1].status, EpisodeStatus::Failed("download: connection reset".to_string()));
    assert!(eps[1].audio_path.is_none());
}

#[test]
fn batch_phase_leaves_unselected_alone() {
    let mut eps: Vec<Episode> = (1..=3).map(episode).collect();
    let done = apply_phase(&mut eps, Phase::Download, &vec![1], &vec![Err("404".to_string())]);
    assert!(done.is_empty());
    assert_eq!(eps[0].status, EpisodeStatus::New);
    assert_eq!(eps[2].status, EpisodeStatus::New);
    assert_eq!(eps[1].status, EpisodeStatus::Failed("download: 404".to_string()));
}

#[test]
fn scheduler_bounds_downloads_in_flight() {
    let k = 2;
    let mut s = DownloadScheduler::new(k, 5);
    let mut max_seen = 0;
    let mut started = Vec::new();
    while !s.is_done() {
        while let Some(i) = s.try_start() {
            started.push(i);
            max_seen = max_seen.max(s.in_flight());
            assert!(s.in_flight() <= k);
        }
        s.finish();
    }
    assert_eq!(started, vec![0, 1, 2, 3, 4]);
    assert_eq!(max_seen, k);
}

#[test]
fn scheduler_waits_when_full() {
    let mut s = DownloadScheduler::new(1, 2);
    assert_eq!(s.try_start(), Some(0));
    assert_eq!(s.try_start(), None);
    s.finish();
    assert_eq!(s.try_start(), Some(1));
    assert_eq!(s.try_start(), None);
    s.finish();
    assert!(s.is_done());
}
