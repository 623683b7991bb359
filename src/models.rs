//! Podcasts, episodes, summaries and the persisted status of an episode.
//! Timestamps are held as seconds since the Unix epoch.

use vstd::prelude::*;
use crate::strings::str_eq;

verus! {

/// A subscribed feed.
#[derive(Debug, Clone)]
pub struct Podcast {
    pub id: i64,
    pub title: String,
    pub feed_url: String,
    pub website_url: Option<String>,
    pub description: Option<String>,
    pub last_checked: Option<i64>,
    pub added_at: i64,
}

/// One audio item of a podcast, with the local artifacts recorded for it.
#[derive(Debug, Clone)]
pub struct Episode {
    pub id: i64,
    pub podcast_id: i64,
    pub guid: String,
    pub title: String,
    pub description: Option<String>,
    pub audio_url: String,
    pub published_at: Option<i64>,
    pub duration_secs: Option<i64>,
    pub status: EpisodeStatus,
    pub audio_path: Option<String>,
    pub transcript_path: Option<String>,
    pub discovered_at: i64,
}

/// A generated summary of one episode.
#[derive(Debug, Clone)]
pub struct Summary {
    pub id: i64,
    pub episode_id: i64,
    pub content: String,
    pub model: String,
    pub prompt_tokens: Option<i64>,
    pub output_tokens: Option<i64>,
    pub created_at: i64,
}

/// Where an episode stands in the download, transcribe, summarize pipeline.
/// `Failed` carries a reason tagged with the phase that failed.
#[derive(Debug, Clone, PartialEq, Eq)]
pub enum EpisodeStatus {
    New,
    Downloaded,
    Transcribed,
    Summarized,
    Failed(String),
}

/// What a status holds, with the failure reason as characters.
pub enum StatusView {
    New,
    Downloaded,
    Transcribed,
    Summarized,
    Failed(Seq<char>),
}

impl View for EpisodeStatus {
    type V = StatusView;

    open spec fn view(&self) -> StatusView {
        match *self {
            EpisodeStatus::New => StatusView::New,
            EpisodeStatus::Downloaded => StatusView::Downloaded,
            EpisodeStatus::Transcribed => StatusView::Transcribed,
            EpisodeStatus::Summarized => StatusView::Summarized,
            EpisodeStatus::Failed(r) => StatusView::Failed(r@),
        }
    }
}

/// The text under which a failed status is stored.
pub open spec fn failed_text() -> Seq<char> {
    seq!['f', 'a', 'i', 'l', 'e', 'd']
}

/// The text under which a status is stored.
pub open spec fn status_text(s: EpisodeStatus) -> Seq<char> {
    match s {
        EpisodeStatus::New => seq!['n', 'e', 'w'],
        EpisodeStatus::Downloaded => seq!['d', 'o', 'w', 'n', 'l', 'o', 'a', 'd', 'e', 'd'],
        EpisodeStatus::Transcribed => seq!['t', 'r', 'a', 'n', 's', 'c', 'r', 'i', 'b', 'e', 'd'],
        EpisodeStatus::Summarized => seq!['s', 'u', 'm', 'm', 'a', 'r', 'i', 'z', 'e', 'd'],
        EpisodeStatus::Failed(_) => failed_text(),
    }
}

/// The reason stored for a failed status when none was recorded.
pub open spec fn unknown_reason() -> Seq<char> {
    seq!['u', 'n', 'k', 'n', 'o', 'w', 'n']
}

/// Whether `s` is the status that a stored text and an optional stored
/// reason stand for. A failed status takes the stored reason, or
/// `unknown` when there is none; an unrecognised text reads as `New`.
pub open spec fn reads_as(s: EpisodeStatus, text: Seq<char>, reason: Option<Seq<char>>) -> bool {
    if text == failed_text() {
        match s {
            EpisodeStatus::Failed(r) => r@ == match reason {
                Some(t) => t,
                None => unknown_reason(),
            },
            _ => false,
        }
    } else if text == status_text(EpisodeStatus::Downloaded) {
        s == EpisodeStatus::Downloaded
    } else if text == status_text(EpisodeStatus::Transcribed) {
        s == EpisodeStatus::Transcribed
    } else if text == status_text(EpisodeStatus::Summarized) {
        s == EpisodeStatus::Summarized
    } else {
        s == EpisodeStatus::New
    }
}

impl EpisodeStatus {
    /// The text under which this status is stored.
    pub fn as_str(&self) -> (r: &str)
        ensures
            r@ == status_text(*self),
    {
        match self {
            EpisodeStatus::New => {
                proof {
                    reveal_strlit("new");
                    assert("new"@ =~= status_text(EpisodeStatus::New));
                }
                "new"
            },
            EpisodeStatus::Downloaded => {
                proof {
                    reveal_strlit("downloaded");
                    assert("downloaded"@ =~= status_text(EpisodeStatus::Downloaded));
                }
                "downloaded"
            },
            EpisodeStatus::Transcribed => {
                proof {
                    reveal_strlit("transcribed");
                    assert("transcribed"@ =~= status_text(EpisodeStatus::Transcribed));
                }
                "transcribed"
            },
            EpisodeStatus::Summarized => {
                proof {
                    reveal_strlit("summarized");
                    assert("summarized"@ =~= status_text(EpisodeStatus::Summarized));
                }
                "summarized"
            },
            EpisodeStatus::Failed(_) => {
                proof {
                    reveal_strlit("failed");
                    assert("failed"@ =~= failed_text());
                }
                "failed"
            },
        }
    }

    /// Reads a status back from its stored text and stored failure reason.
    pub fn from_db(status: &str, fail_reason: Option<&str>) -> (r: Self)
        ensures
            reads_as(
                r,
                status@,
                match fail_reason {
                    Some(t) => Some(t@),
                    None => None,
                },
            ),
    {
        proof {
            reveal_strlit("new");
            reveal_strlit("downloaded");
            reveal_strlit("transcribed");
            reveal_strlit("summarized");
            reveal_strlit("failed");
            reveal_strlit("unknown");
            assert("new"@ =~= status_text(EpisodeStatus::New));
            assert("downloaded"@ =~= status_text(EpisodeStatus::Downloaded));
            assert("transcribed"@ =~= status_text(EpisodeStatus::Transcribed));
            assert("summarized"@ =~= status_text(EpisodeStatus::Summarized));
            assert("failed"@ =~= failed_text());
            assert("unknown"@ =~= unknown_reason());
        }
        if str_eq(status, "failed") {
            let reason = match fail_reason {
                Some(t) => t,
                None => "unknown",
            };
            EpisodeStatus::Failed(String::from_str(reason))
        } else if str_eq(status, "downloaded") {
            EpisodeStatus::Downloaded
        } else if str_eq(status, "transcribed") {
            EpisodeStatus::Transcribed
        } else if str_eq(status, "summarized") {
            EpisodeStatus::Summarized
        } else {
            EpisodeStatus::New
        }
    }

    /// The reason of a failed status; `None` for every other status.
    pub fn fail_reason(&self) -> (r: Option<&str>)
        ensures
            match *self {
                EpisodeStatus::Failed(reason) => r is Some && r->0@ == reason@,
                _ => r is None,
            },
    {
        match self {
            EpisodeStatus::Failed(reason) => Some(reason.as_str()),
            _ => None,
        }
    }
}

} // verus!
