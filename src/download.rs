//! Naming of local files: downloaded audio, recognition models and
//! transcripts.

use vstd::prelude::*;
use crate::strings::chars_of;
use crate::text::{decimal, decimal_text, truncate, truncated};
use crate::config::{join_path, path_join};

verus! {

/// What follows the last `c` in `s`; all of `s` when it holds no `c`.
pub open spec fn after_last(s: Seq<char>, c: char) -> Seq<char>
    decreases s.len(),
{
    if s.len() == 0 {
        s
    } else if s.last() == c {
        seq![]
    } else {
        after_last(s.drop_last(), c).push(s.last())
    }
}

/// What precedes the first `c` in `s`; all of `s` when it holds no `c`.
pub open spec fn before_first(s: Seq<char>, c: char) -> Seq<char>
    decreases s.len(),
{
    if s.len() == 0 {
        s
    } else {
        let p = before_first(s.drop_last(), c);
        if p.len() < s.len() - 1 || s.last() == c {
            p
        } else {
            p.push(s.last())
        }
    }
}

/// The file name of an episode's audio: the last path segment of its URL,
/// without the query.
pub open spec fn file_name_of(url: Seq<char>) -> Seq<char> {
    before_first(after_last(url, '/'), '?')
}

/// Derives the local file name of an episode's audio from its URL.
pub fn filename_from_url(url: &str) -> (r: String)
    ensures
        r@ == file_name_of(url@),
{
    let cs = chars_of(url);
    let n = cs.len();
    let mut start: usize = 0;
    let mut i: usize = 0;
    while i < n
        invariant
            cs@ == url@,
            n == cs@.len(),
            start <= i <= n,
            cs@.subrange(start as int, i as int) == after_last(cs@.subrange(0, i as int), '/'),
        decreases n - i,
    {
        assert(cs@.subrange(0, i + 1).drop_last() =~= cs@.subrange(0, i as int));
        if cs[i] == '/' {
            start = i + 1;
            assert(cs@.subrange(start as int, i + 1) =~= Seq::<char>::empty());
        } else {
            assert(cs@.subrange(start as int, i + 1) =~= cs@.subrange(start as int, i as int).push(
                cs@[i as int],
            ));
        }
        i = i + 1;
    }
    assert(cs@.subrange(0, n as int) =~= cs@);
    let ghost seg = cs@.subrange(start as int, n as int);
    let mut end: usize = start;
    let mut j: usize = start;
    while j < n
        invariant
            cs@ == url@,
            n == cs@.len(),
            start <= end <= j <= n,
            seg == cs@.subrange(start as int, n as int),
            cs@.subrange(start as int, end as int) == before_first(
                seg.subrange(0, j - start),
                '?',
            ),
            end < j ==> cs@[end as int] == '?',
        decreases n - j,
    {
        let ghost pre = seg.subrange(0, j - start);
        let ghost cur = seg.subrange(0, j + 1 - start);
        assert(cur.drop_last() =~= pre);
        assert(cur.last() == cs@[j as int]);
        assert(before_first(pre, '?').len() == end - start);
        if end == j && cs[j] != '?' {
            end = j + 1;
            assert(cs@.subrange(start as int, end as int) =~= cs@.subrange(
                start as int,
                j as int,
            ).push(cs@[j as int]));
        }
        j = j + 1;
    }
    assert(seg.subrange(0, n - start) =~= seg);
    String::from_str(url.substring_char(start, end))
}

/// Shortens a file name for display to at most `max` characters.
pub fn truncate_filename(name: &str, max: usize) -> (r: String)
    requires
        name@.len() <= max || max >= 3,
    ensures
        r@ == truncated(name@, max as nat),
{
    truncate(name, max)
}

/// Where recognition models are published.
pub const MODEL_BASE_URL: &'static str = "https://huggingface.co/ggerganov/whisper.cpp/resolve/main";

/// The file name of a recognition model: `ggml-<name>.bin`.
pub fn model_file_name(name: &str) -> (r: String)
    ensures
        r@ == "ggml-"@ + name@ + ".bin"@,
{
    let mut r = String::from_str("ggml-");
    r.append(name);
    r.append(".bin");
    r
}

/// The URL a model file is fetched from.
pub fn model_url(file_name: &str) -> (r: String)
    ensures
        r@ == MODEL_BASE_URL@ + "/"@ + file_name@,
{
    let mut r = String::from_str(MODEL_BASE_URL);
    r.append("/");
    r.append(file_name);
    r
}

/// An id in decimal, with a sign when negative.
pub open spec fn id_text(n: int) -> Seq<char> {
    if n < 0 {
        seq!['-'] + decimal_text((-n) as nat)
    } else {
        decimal_text(n as nat)
    }
}

/// Writes an id in decimal.
pub fn id_decimal(n: i64) -> (r: String)
    ensures
        r@ == id_text(n as int),
{
    if n < 0 {
        let a: u64 = (-(n + 1)) as u64 + 1;
        let mut r = String::from_str("-");
        let d = decimal(a);
        r.append(d.as_str());
        proof {
            reveal_strlit("-");
        }
        assert(r@ =~= id_text(n as int));
        r
    } else {
        decimal(n as u64)
    }
}

/// The transcript file of an episode: `<dir>/<podcast id>/<episode id>.txt`.
pub open spec fn transcript_file_of(dir: Seq<char>, podcast_id: int, episode_id: int) -> Seq<char> {
    path_join(path_join(dir, id_text(podcast_id)), id_text(episode_id) + ".txt"@)
}

/// Names the transcript file of an episode under the transcript directory.
pub fn transcript_file(dir: &str, podcast_id: i64, episode_id: i64) -> (r: String)
    ensures
        r@ == transcript_file_of(dir@, podcast_id as int, episode_id as int),
{
    let pd = id_decimal(podcast_id);
    let sub = join_path(dir, pd.as_str());
    let mut name = id_decimal(episode_id);
    name.append(".txt");
    join_path(sub.as_str(), name.as_str())
}

} // verus!
