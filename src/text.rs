//! Text measures and display helpers: transcript length in words or CJK
//! characters, truncation to a display width, indentation, durations.

use vstd::prelude::*;
use crate::strings::chars_of;

verus! {

/// Whether `c` lies in one of the CJK blocks: unified ideographs and their
/// extension A, compatibility ideographs, CJK symbols and punctuation, and
/// half- and full-width forms.
pub open spec fn cjk(c: char) -> bool {
    let v = c as u32;
    (0x4E00 <= v <= 0x9FFF) || (0x3400 <= v <= 0x4DBF) || (0xF900 <= v <= 0xFAFF) || (0x3000 <= v
        <= 0x303F) || (0xFF00 <= v <= 0xFFEF)
}

/// Whether `c` has the Unicode White_Space property.
pub open spec fn white(c: char) -> bool {
    let v = c as u32;
    (0x09 <= v <= 0x0D) || v == 0x20 || v == 0x85 || v == 0xA0 || v == 0x1680 || (0x2000 <= v
        <= 0x200A) || v == 0x2028 || v == 0x2029 || v == 0x202F || v == 0x205F || v == 0x3000
}

/// The number of CJK characters in `s`.
pub open spec fn cjk_count(s: Seq<char>) -> nat
    decreases s.len(),
{
    if s.len() == 0 {
        0
    } else {
        cjk_count(s.drop_last()) + if cjk(s.last()) {
            1nat
        } else {
            0nat
        }
    }
}

/// The number of characters of `s` that are not whitespace.
pub open spec fn visible_count(s: Seq<char>) -> nat
    decreases s.len(),
{
    if s.len() == 0 {
        0
    } else {
        visible_count(s.drop_last()) + if white(s.last()) {
            0nat
        } else {
            1nat
        }
    }
}

/// Whether a word of `s` starts at `i`: a non-whitespace character that
/// starts the text or follows whitespace.
pub open spec fn word_starts_at(s: Seq<char>, i: int) -> bool {
    !white(s[i]) && (i == 0 || white(s[i - 1]))
}

/// The number of whitespace-separated words in `s`.
pub open spec fn word_count(s: Seq<char>) -> nat
    decreases s.len(),
{
    if s.len() == 0 {
        0
    } else {
        word_count(s.drop_last()) + if word_starts_at(s, s.len() - 1) {
            1nat
        } else {
            0nat
        }
    }
}

/// The length of a transcript: its non-whitespace characters when more than
/// 30% of them are CJK, else its words.
pub open spec fn text_length(s: Seq<char>) -> nat {
    let total = visible_count(s);
    if total > 0 && cjk_count(s) * 100 / total > 30 {
        total
    } else {
        word_count(s)
    }
}

/// Whether `c` is a CJK character.
pub fn is_cjk(c: char) -> (r: bool)
    ensures
        r == cjk(c),
{
    let v = c as u32;
    (0x4E00 <= v && v <= 0x9FFF) || (0x3400 <= v && v <= 0x4DBF) || (0xF900 <= v && v <= 0xFAFF)
        || (0x3000 <= v && v <= 0x303F) || (0xFF00 <= v && v <= 0xFFEF)
}

/// Whether `c` is whitespace.
pub fn is_white(c: char) -> (r: bool)
    ensures
        r == white(c),
{
    let v = c as u32;
    (0x09 <= v && v <= 0x0D) || v == 0x20 || v == 0x85 || v == 0xA0 || v == 0x1680 || (0x2000 <= v
        && v <= 0x200A) || v == 0x2028 || v == 0x2029 || v == 0x202F || v == 0x205F || v == 0x3000
}

/// Counts the length of a transcript: characters for CJK-heavy text, words
/// for other text.
pub fn count_text_length(s: &str) -> (r: usize)
    ensures
        r == text_length(s@),
{
    let cs = chars_of(s);
    let n = cs.len();
    let mut cjk_n: usize = 0;
    let mut visible: usize = 0;
    let mut words: usize = 0;
    let mut i: usize = 0;
    while i < n
        invariant
            n == cs@.len(),
            cs@ == s@,
            i <= n,
            cjk_n == cjk_count(cs@.subrange(0, i as int)),
            visible == visible_count(cs@.subrange(0, i as int)),
            words == word_count(cs@.subrange(0, i as int)),
            cjk_n <= i,
            visible <= i,
            words <= i,
        decreases n - i,
    {
        let c = cs[i];
        let ghost pre = cs@.subrange(0, i as int);
        let ghost cur = cs@.subrange(0, i + 1);
        assert(cur.drop_last() =~= pre);
        if is_cjk(c) {
            cjk_n = cjk_n + 1;
        }
        if !is_white(c) {
            visible = visible + 1;
            if i == 0 || is_white(cs[i - 1]) {
                words = words + 1;
            }
        }
        i = i + 1;
    }
    assert(cs@.subrange(0, n as int) =~= cs@);
    if visible > 0 && (cjk_n as u128) * 100 / (visible as u128) > 30 {
        visible
    } else {
        words
    }
}

/// `s` cut to at most `max` characters: a longer text keeps its first
/// `max - 3` characters followed by `...`.
pub open spec fn truncated(s: Seq<char>, max: nat) -> Seq<char> {
    if s.len() <= max {
        s
    } else {
        s.subrange(0, max - 3) + seq!['.', '.', '.']
    }
}

/// Cuts `s` to at most `max` characters for display, marking a cut with
/// `...`.
pub fn truncate(s: &str, max: usize) -> (r: String)
    requires
        s@.len() <= max || max >= 3,
    ensures
        r@ == truncated(s@, max as nat),
{
    let n = s.unicode_len();
    if n <= max {
        String::from_str(s)
    } else {
        let mut r = String::from_str(s.substring_char(0, max - 3));
        proof {
            reveal_strlit("...");
        }
        r.append("...");
        assert(r@ =~= truncated(s@, max as nat));
        r
    }
}

/// The decimal digit for `d < 10`.
pub open spec fn digit_char(d: nat) -> char {
    seq!['0', '1', '2', '3', '4', '5', '6', '7', '8', '9'][d as int]
}

/// The decimal representation of `n`, without leading zeros.
pub open spec fn decimal_text(n: nat) -> Seq<char>
    decreases n,
{
    if n < 10 {
        seq![digit_char(n)]
    } else {
        decimal_text(n / 10).push(digit_char(n % 10))
    }
}

/// Writes `n` in decimal.
pub fn decimal(n: u64) -> (r: String)
    ensures
        r@ == decimal_text(n as nat),
    decreases n,
{
    let digits = "0123456789";
    proof {
        reveal_strlit("0123456789");
        assert(digits@ =~= seq!['0', '1', '2', '3', '4', '5', '6', '7', '8', '9']);
    }
    let d = (n % 10) as usize;
    let last = digits.substring_char(d, d + 1);
    if n < 10 {
        let r = String::from_str(last);
        assert(r@ =~= decimal_text(n as nat));
        r
    } else {
        let mut r = decimal(n / 10);
        r.append(last);
        assert(r@ =~= decimal_text(n as nat));
        r
    }
}

/// Minutes below ten shown with a leading zero.
pub open spec fn two_digits(m: nat) -> Seq<char> {
    if m < 10 {
        seq!['0'] + decimal_text(m)
    } else {
        decimal_text(m)
    }
}

/// A duration in seconds as `<h>h<mm>m`, or `<m>m` under an hour. Negative
/// durations never reach hours: they show their minutes with a sign, as
/// truncating division gives them.
pub open spec fn duration_text(secs: int) -> Seq<char> {
    let a = if secs < 0 {
        -secs
    } else {
        secs
    };
    let h = a / 3600;
    let m = (a % 3600) / 60;
    if secs >= 0 && h > 0 {
        decimal_text(h as nat) + seq!['h'] + two_digits(m as nat) + seq!['m']
    } else if secs < 0 && m > 0 {
        seq!['-'] + decimal_text(m as nat) + seq!['m']
    } else {
        decimal_text(m as nat) + seq!['m']
    }
}

/// Formats a duration in seconds for listings.
pub fn format_duration(secs: i64) -> (r: String)
    ensures
        r@ == duration_text(secs as int),
{
    let a: u64 = if secs < 0 {
        (-(secs + 1)) as u64 + 1
    } else {
        secs as u64
    };
    let h = a / 3600;
    let m = (a % 3600) / 60;
    proof {
        reveal_strlit("h");
        reveal_strlit("m");
        reveal_strlit("0");
        reveal_strlit("-");
    }
    if secs >= 0 && h > 0 {
        let mut r = decimal(h);
        r.append("h");
        if m < 10 {
            r.append("0");
        }
        let mm = decimal(m);
        r.append(mm.as_str());
        r.append("m");
        assert(r@ =~= duration_text(secs as int));
        r
    } else if secs < 0 && m > 0 {
        let mut r = String::from_str("-");
        let mm = decimal(m);
        r.append(mm.as_str());
        r.append("m");
        assert(r@ =~= duration_text(secs as int));
        r
    } else {
        let mut r = decimal(m);
        r.append("m");
        assert(r@ =~= duration_text(secs as int));
        r
    }
}

/// The pieces of `s` between `\n` characters, as splitting on `\n` gives
/// them: one more piece than there are line breaks.
pub open spec fn pieces(s: Seq<char>) -> Seq<Seq<char>>
    decreases s.len(),
{
    if s.len() == 0 {
        seq![seq![]]
    } else {
        let p = pieces(s.drop_last());
        if s.last() == '\n' {
            p.push(seq![])
        } else {
            p.update(p.len() - 1, p.last().push(s.last()))
        }
    }
}

/// `t` without one trailing `\r`.
pub open spec fn strip_cr(t: Seq<char>) -> Seq<char> {
    if t.len() > 0 && t.last() == '\r' {
        t.drop_last()
    } else {
        t
    }
}

/// The lines of `s`: its pieces without a final empty one (a final line
/// break adds no line), each ended by a line break losing a `\r` before it.
pub open spec fn lines_of(s: Seq<char>) -> Seq<Seq<char>> {
    let p = pieces(s);
    let n = if p.last().len() == 0 {
        p.len() - 1
    } else {
        p.len() as int
    };
    Seq::new(
        n as nat,
        |k: int|
            if k < p.len() - 1 {
                strip_cr(p[k])
            } else {
                p[k]
            },
    )
}

/// `lines`, each after `prefix`, joined with `\n`.
pub open spec fn prefixed_join(lines: Seq<Seq<char>>, prefix: Seq<char>) -> Seq<char>
    decreases lines.len(),
{
    if lines.len() == 0 {
        seq![]
    } else if lines.len() == 1 {
        prefix + lines[0]
    } else {
        prefixed_join(lines.drop_last(), prefix) + seq!['\n'] + prefix + lines.last()
    }
}

/// `n` spaces.
pub open spec fn spaces(n: nat) -> Seq<char> {
    Seq::new(n, |i: int| ' ')
}

/// `s` with every line indented by `n` spaces.
pub open spec fn indented(s: Seq<char>, n: nat) -> Seq<char> {
    prefixed_join(lines_of(s), spaces(n))
}

/// The texts between the bounds `bounds` of `cs`.
spec fn piece_views(cs: Seq<char>, bounds: Seq<(usize, usize)>) -> Seq<Seq<char>> {
    Seq::new(bounds.len(), |k: int| cs.subrange(bounds[k].0 as int, bounds[k].1 as int))
}

/// Indents every line of `s` by `n` spaces.
pub fn indent(s: &str, n: usize) -> (r: String)
    ensures
        r@ == indented(s@, n as nat),
{
    let cs = chars_of(s);
    let len = cs.len();
    let mut bounds: Vec<(usize, usize)> = Vec::new();
    bounds.push((0, 0));
    let mut i: usize = 0;
    assert(piece_views(cs@, bounds@) =~~= pieces(cs@.subrange(0, 0)));
    while i < len
        invariant
            cs@ == s@,
            len == cs@.len(),
            i <= len,
            bounds@.len() >= 1,
            bounds@.len() <= i + 1,
            forall|k: int|
                0 <= k < bounds@.len() ==> (#[trigger] bounds@[k]).0 <= bounds@[k].1 && bounds@[k].1 <= i,
            bounds@.last().1 == i,
            piece_views(cs@, bounds@) == pieces(cs@.subrange(0, i as int)),
        decreases len - i,
    {
        let ghost pre = cs@.subrange(0, i as int);
        let ghost cur = cs@.subrange(0, i + 1);
        assert(cur.drop_last() =~= pre);
        let ghost old_bounds = bounds@;
        if cs[i] == '\n' {
            bounds.push((i + 1, i + 1));
            assert(piece_views(cs@, bounds@) =~~= piece_views(cs@, old_bounds).push(seq![]));
        } else {
            let last = bounds.len() - 1;
            let (a, _) = bounds[last];
            bounds.set(last, (a, i + 1));
            assert(cs@.subrange(a as int, i + 1) =~= cs@.subrange(a as int, i as int).push(
                cs@[i as int],
            ));
            assert(piece_views(cs@, bounds@) =~~= piece_views(cs@, old_bounds).update(
                last as int,
                piece_views(cs@, old_bounds).last().push(cs@[i as int]),
            ));
        }
        assert forall|k: int| 0 <= k < bounds@.len() implies (#[trigger] bounds@[k]).0 <= bounds@[k].1
            && bounds@[k].1 <= i + 1 by {
            if k < old_bounds.len() {
                assert(old_bounds[k].0 <= old_bounds[k].1 && old_bounds[k].1 <= i);
            }
        }
        i = i + 1;
    }
    assert(cs@.subrange(0, len as int) =~= cs@);
    let ghost p = pieces(s@);
    let ghost lines = lines_of(s@);
    let mut prefix = String::new();
    let mut j: usize = 0;
    while j < n
        invariant
            j <= n,
            prefix@ =~= spaces(j as nat),
        decreases n - j,
    {
        proof {
            reveal_strlit(" ");
        }
        prefix.append(" ");
        j = j + 1;
    }
    let nb = bounds.len();
    let (la, lb) = bounds[nb - 1];
    let count = if la == lb {
        nb - 1
    } else {
        nb
    };
    assert(count == lines.len());
    let mut r = String::new();
    let mut k: usize = 0;
    while k < count
        invariant
            cs@ == s@,
            nb == bounds@.len(),
            nb >= 1,
            count <= nb,
            count == lines.len(),
            p == piece_views(cs@, bounds@),
            lines == lines_of(s@),
            p == pieces(s@),
            forall|q: int|
                0 <= q < bounds@.len() ==> (#[trigger] bounds@[q]).0 <= bounds@[q].1 && bounds@[q].1 <= cs@.len(),
            prefix@ == spaces(n as nat),
            k <= count,
            r@ == prefixed_join(lines.subrange(0, k as int), spaces(n as nat)),
        decreases count - k,
    {
        let (a, b) = bounds[k];
        let mut e = b;
        if k + 1 < nb && b > a && cs[b - 1] == '\r' {
            e = b - 1;
        }
        let line = s.substring_char(a, e);
        assert(p[k as int] == cs@.subrange(a as int, b as int));
        assert(line@ == lines[k as int]) by {
            if k + 1 < nb && b > a && cs@[b - 1] == '\r' {
                assert(cs@.subrange(a as int, b as int).drop_last() =~= cs@.subrange(
                    a as int,
                    e as int,
                ));
            }
        }
        let ghost before = r@;
        if k > 0 {
            proof {
                reveal_strlit("\n");
            }
            r.append("\n");
        }
        r.append(prefix.as_str());
        r.append(line);
        assert(lines.subrange(0, k + 1).drop_last() =~= lines.subrange(0, k as int));
        assert(r@ =~= prefixed_join(lines.subrange(0, k + 1), spaces(n as nat)));
        k = k + 1;
    }
    assert(lines.subrange(0, count as int) =~= lines);
    r
}

} // verus!
