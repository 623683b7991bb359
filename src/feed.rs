//! What the pipeline keeps of a parsed feed, and how an entry's audio URL
//! is chosen among its media and links.

use vstd::prelude::*;
use crate::strings::{chars_of, str_eq};

verus! {

/// One episode as the feed lists it.
#[derive(Debug, Clone)]
pub struct FeedEntry {
    pub guid: String,
    pub title: String,
    pub description: Option<String>,
    pub audio_url: String,
    pub published_at: Option<i64>,
    pub duration_secs: Option<i64>,
}

/// A feed's metadata and the entries that carry audio.
#[derive(Debug, Clone)]
pub struct FeedInfo {
    pub title: String,
    pub website_url: Option<String>,
    pub description: Option<String>,
    pub entries: Vec<FeedEntry>,
}

/// A media content item of a feed entry.
#[derive(Debug, Clone)]
pub struct MediaRef {
    /// The content's URL, if it has one.
    pub url: Option<String>,
    /// The top-level part of its MIME type (`audio` in `audio/mpeg`).
    pub mime_top: Option<String>,
}

/// A link of a feed entry.
#[derive(Debug, Clone)]
pub struct LinkRef {
    pub href: String,
    pub media_type: Option<String>,
    pub rel: Option<String>,
}

/// `s` ends with `suffix`.
pub open spec fn has_suffix(s: Seq<char>, suffix: Seq<char>) -> bool {
    s.len() >= suffix.len() && s.subrange(s.len() - suffix.len(), s.len() as int) == suffix
}

/// `s` starts with `prefix`.
pub open spec fn has_prefix(s: Seq<char>, prefix: Seq<char>) -> bool {
    s.len() >= prefix.len() && s.subrange(0, prefix.len() as int) == prefix
}

/// Whether `s` ends with `suffix`.
pub fn ends_with(s: &str, suffix: &str) -> (r: bool)
    ensures
        r == has_suffix(s@, suffix@),
{
    let n = s.unicode_len();
    let m = suffix.unicode_len();
    if n < m {
        return false;
    }
    str_eq(s.substring_char(n - m, n), suffix)
}

/// Whether `s` starts with `prefix`.
pub fn starts_with(s: &str, prefix: &str) -> (r: bool)
    ensures
        r == has_prefix(s@, prefix@),
{
    let n = s.unicode_len();
    let m = prefix.unicode_len();
    if n < m {
        return false;
    }
    str_eq(s.substring_char(0, m), prefix)
}

/// A URL whose name marks it as audio.
pub open spec fn looks_audio(u: Seq<char>) -> bool {
    has_suffix(u, ".mp3"@) || has_suffix(u, ".m4a"@) || has_suffix(u, ".ogg"@)
}

/// Whether a URL ends in an audio file extension.
pub fn url_looks_audio(u: &str) -> (r: bool)
    ensures
        r == looks_audio(u@),
{
    ends_with(u, ".mp3") || ends_with(u, ".m4a") || ends_with(u, ".ogg")
}

/// The audio URL that a media item offers: its URL, when its type is audio
/// or its URL looks like audio.
pub open spec fn media_audio(m: MediaRef) -> Option<Seq<char>> {
    match m.url {
        Some(u) => if (m.mime_top is Some && m.mime_top->0@ == "audio"@) || looks_audio(u@) {
            Some(u@)
        } else {
            None
        },
        None => None,
    }
}

/// Whether a link is an audio enclosure: an `audio/` media type, or the
/// `enclosure` relation.
pub open spec fn link_is_audio(l: LinkRef) -> bool {
    (l.media_type is Some && has_prefix(l.media_type->0@, "audio/"@)) || (l.rel is Some
        && l.rel->0@ == "enclosure"@)
}

/// The first audio URL among media items.
pub open spec fn first_media_audio(ms: Seq<MediaRef>) -> Option<Seq<char>>
    decreases ms.len(),
{
    if ms.len() == 0 {
        None
    } else {
        match media_audio(ms[0]) {
            Some(u) => Some(u),
            None => first_media_audio(ms.drop_first()),
        }
    }
}

/// The href of the first audio link.
pub open spec fn first_audio_link(ls: Seq<LinkRef>) -> Option<Seq<char>>
    decreases ls.len(),
{
    if ls.len() == 0 {
        None
    } else if link_is_audio(ls[0]) {
        Some(ls[0].href@)
    } else {
        first_audio_link(ls.drop_first())
    }
}

/// The audio URL of an entry: from its media first, then from its links.
pub open spec fn entry_audio_url(ms: Seq<MediaRef>, ls: Seq<LinkRef>) -> Option<Seq<char>> {
    match first_media_audio(ms) {
        Some(u) => Some(u),
        None => first_audio_link(ls),
    }
}

fn pick_from_media(m: &MediaRef) -> (r: Option<String>)
    ensures
        match r {
            Some(u) => media_audio(*m) == Some(u@),
            None => media_audio(*m) is None,
        },
{
    match &m.url {
        Some(u) => {
            let typed = match &m.mime_top {
                Some(t) => str_eq(t.as_str(), "audio"),
                None => false,
            };
            if typed || url_looks_audio(u.as_str()) {
                Some(u.clone())
            } else {
                None
            }
        },
        None => None,
    }
}

fn is_audio_link(l: &LinkRef) -> (r: bool)
    ensures
        r == link_is_audio(*l),
{
    let typed = match &l.media_type {
        Some(t) => starts_with(t.as_str(), "audio/"),
        None => false,
    };
    let enclosure = match &l.rel {
        Some(r) => str_eq(r.as_str(), "enclosure"),
        None => false,
    };
    typed || enclosure
}

/// Chooses the audio URL of a feed entry: the first media item that is
/// audio by type or by name, else the first link that is an audio
/// enclosure; `None` when there is neither, and the entry is skipped.
pub fn pick_audio_url(media: &Vec<MediaRef>, links: &Vec<LinkRef>) -> (r: Option<String>)
    ensures
        match r {
            Some(u) => entry_audio_url(media@, links@) == Some(u@),
            None => entry_audio_url(media@, links@) is None,
        },
{
    let mut i: usize = 0;
    assert(media@.subrange(0, media@.len() as int) =~= media@);
    while i < media.len()
        invariant
            i <= media@.len(),
            first_media_audio(media@.subrange(i as int, media@.len() as int)) == first_media_audio(
                media@,
            ),
        decreases media@.len() - i,
    {
        let ghost rest = media@.subrange(i as int, media@.len() as int);
        assert(rest.drop_first() =~= media@.subrange(i + 1, media@.len() as int));
        assert(rest[0] == media@[i as int]);
        match pick_from_media(&media[i]) {
            Some(u) => {
                return Some(u);
            },
            None => {},
        }
        i = i + 1;
    }
    assert(media@.subrange(i as int, media@.len() as int) =~= Seq::<MediaRef>::empty());
    let mut j: usize = 0;
    assert(links@.subrange(0, links@.len() as int) =~= links@);
    while j < links.len()
        invariant
            j <= links@.len(),
            first_media_audio(media@) is None,
            first_audio_link(links@.subrange(j as int, links@.len() as int)) == first_audio_link(
                links@,
            ),
        decreases links@.len() - j,
    {
        let ghost rest = links@.subrange(j as int, links@.len() as int);
        assert(rest.drop_first() =~= links@.subrange(j + 1, links@.len() as int));
        assert(rest[0] == links@[j as int]);
        if is_audio_link(&links[j]) {
            return Some(links[j].href.clone());
        }
        j = j + 1;
    }
    assert(links@.subrange(j as int, links@.len() as int) =~= Seq::<LinkRef>::empty());
    None
}

/// A feed or entry title, or `Untitled` when it has none.
pub fn title_or_untitled(title: Option<String>) -> (r: String)
    ensures
        r@ == match title {
            Some(t) => t@,
            None => "Untitled"@,
        },
{
    match title {
        Some(t) => t,
        None => String::from_str("Untitled"),
    }
}

} // verus!
