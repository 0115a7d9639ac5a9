use vstd::prelude::*;

use crate::chars::{chars_of, string_of};

verus! {

/// Unicode `White_Space` (PropList.txt), the set that `char::is_whitespace`,
/// `str::trim` and `str::split_whitespace` go by.
pub open spec fn is_ws(c: char) -> bool {
    let u = c as u32;
    ||| 0x9 <= u <= 0xD
    ||| u == 0x20
    ||| u == 0x85
    ||| u == 0xA0
    ||| u == 0x1680
    ||| 0x2000 <= u <= 0x200A
    ||| u == 0x2028
    ||| u == 0x2029
    ||| u == 0x202F
    ||| u == 0x205F
    ||| u == 0x3000
}

/// Whether `c` is Unicode white space.
pub fn is_whitespace(c: char) -> (r: bool)
    ensures
        r == is_ws(c),
{
    let u = c as u32;
    (0x9 <= u && u <= 0xD) || u == 0x20 || u == 0x85 || u == 0xA0 || u == 0x1680 || (0x2000 <= u
        && u <= 0x200A) || u == 0x2028 || u == 0x2029 || u == 0x202F || u == 0x205F || u == 0x3000
}

/// The marker appended to text that was cut after a character limit.
pub open spec fn ellipsis() -> char {
    '\u{2026}'
}

/// One step of whitespace collapsing: the text built so far, and whether a
/// separator is owed before the next word.
pub open spec fn collapse_step(state: (Seq<char>, bool), c: char) -> (Seq<char>, bool) {
    if is_ws(c) {
        (state.0, state.0.len() > 0)
    } else if state.1 {
        (state.0 + seq![' ', c], false)
    } else {
        (state.0.push(c), false)
    }
}

pub open spec fn collapse_state(s: Seq<char>) -> (Seq<char>, bool)
    decreases s.len(),
{
    if s.len() == 0 {
        (Seq::<char>::empty(), false)
    } else {
        collapse_step(collapse_state(s.drop_last()), s.last())
    }
}

/// The words of `s` (maximal runs without white space) joined by single spaces:
/// `s.split_whitespace().collect::<Vec<_>>().join(" ")`.
pub open spec fn normalize_whitespace(s: Seq<char>) -> Seq<char> {
    collapse_state(s).0
}

/// `s` without its trailing white space (`str::trim_end`).
pub open spec fn trim_end_ws(s: Seq<char>) -> Seq<char>
    decreases s.len(),
{
    if s.len() > 0 && is_ws(s.last()) {
        trim_end_ws(s.drop_last())
    } else {
        s
    }
}

/// `s` without its leading white space (`str::trim_start`).
pub open spec fn trim_start_ws(s: Seq<char>) -> Seq<char>
    decreases s.len(),
{
    if s.len() > 0 && is_ws(s[0]) {
        trim_start_ws(s.drop_first())
    } else {
        s
    }
}

/// `s` without white space at either end (`str::trim`).
pub open spec fn trim_ws(s: Seq<char>) -> Seq<char> {
    trim_end_ws(trim_start_ws(s))
}

/// What `compact_search_text` returns: the text on one line with its white space
/// collapsed; beyond `max_chars` characters it is cut, stripped of trailing space
/// and ended with an ellipsis.
pub open spec fn spec_compact_search_text(value: Seq<char>, max_chars: nat) -> Seq<char> {
    let normalized = normalize_whitespace(value);
    if normalized.len() <= max_chars {
        normalized
    } else {
        trim_end_ws(normalized.take(max_chars as int)).push(ellipsis())
    }
}

/// What `truncate_preserving_layout` returns: the text itself when it fits,
/// otherwise its first `max_chars` characters, a blank line and an ellipsis.
pub open spec fn spec_truncate_preserving_layout(value: Seq<char>, max_chars: nat) -> Seq<char> {
    if value.len() <= max_chars {
        value
    } else {
        value.take(max_chars as int) + seq!['\n', '\n', ellipsis()]
    }
}

/// Index of the first `c` in `s`, or `s.len()` when there is none.
pub open spec fn index_of_char(s: Seq<char>, c: char) -> int
    decreases s.len(),
{
    if s.len() == 0 {
        0
    } else if s[0] == c {
        0
    } else {
        1 + index_of_char(s.drop_first(), c)
    }
}

/// Whether `s` holds a character that is not white space.
pub open spec fn has_non_ws(s: Seq<char>) -> bool {
    exists|i: int| 0 <= i < s.len() && !is_ws(#[trigger] s[i])
}

/// The first line of `s` (lines end at `\n`) that is not blank, if any.
pub open spec fn first_nonblank_line(s: Seq<char>) -> Option<Seq<char>>
    decreases s.len(),
{
    let k = index_of_char(s, '\n');
    if 0 <= k <= s.len() {
        if has_non_ws(s.take(k)) {
            Some(s.take(k))
        } else if k >= s.len() {
            None
        } else {
            first_nonblank_line(s.skip(k + 1))
        }
    } else {
        None
    }
}

/// The title used when a description has no text at all.
pub open spec fn untitled() -> Seq<char> {
    seq!['Б', 'е', 'з', ' ', 'н', 'а', 'з', 'в', 'а', 'н', 'и', 'я']
}

/// Markdown markers removed from the front of a task title.
pub open spec fn is_title_marker(c: char) -> bool {
    c == '#' || c == '-' || c == '*' || c == ' '
}

/// `s` without its leading title markers (`trim_start_matches(['#', '-', '*', ' '])`).
pub open spec fn trim_title_markers(s: Seq<char>) -> Seq<char>
    decreases s.len(),
{
    if s.len() > 0 && is_title_marker(s[0]) {
        trim_title_markers(s.drop_first())
    } else {
        s
    }
}

/// What `compact_task_title` returns: the first non-blank line of the
/// description (or the placeholder title), compacted to 120 characters, without
/// leading Markdown markers.
pub open spec fn spec_compact_task_title(description: Seq<char>) -> Seq<char> {
    let line = match first_nonblank_line(description) {
        Some(line) => line,
        None => untitled(),
    };
    trim_title_markers(spec_compact_search_text(line, 120))
}

pub(crate) proof fn lemma_index_of_char_bounds(s: Seq<char>, c: char)
    ensures
        0 <= index_of_char(s, c) <= s.len(),
        index_of_char(s, c) < s.len() ==> s[index_of_char(s, c)] == c,
        forall|j: int| 0 <= j < index_of_char(s, c) ==> s[j] != c,
    decreases s.len(),
{
    if s.len() > 0 && s[0] != c {
        lemma_index_of_char_bounds(s.drop_first(), c);
        assert forall|j: int| 0 <= j < index_of_char(s, c) implies s[j] != c by {
            if j > 0 {
                assert(s[j] == s.drop_first()[j - 1]);
            }
        }
    }
}

pub(crate) proof fn lemma_index_of_char_unique(s: Seq<char>, c: char, k: int)
    requires
        0 <= k <= s.len(),
        k < s.len() ==> s[k] == c,
        forall|j: int| 0 <= j < k ==> s[j] != c,
    ensures
        index_of_char(s, c) == k,
    decreases s.len(),
{
    if s.len() > 0 && k > 0 {
        assert(s[0] != c);
        let t = s.drop_first();
        assert forall|j: int| 0 <= j < k - 1 implies t[j] != c by {
            assert(t[j] == s[j + 1]);
        }
        lemma_index_of_char_unique(t, c, k - 1);
    }
}

pub(crate) fn chars_take(v: &Vec<char>, start: usize, end: usize) -> (r: Vec<char>)
    requires
        start <= end <= v@.len(),
    ensures
        r@ == v@.subrange(start as int, end as int),
{
    let mut out: Vec<char> = Vec::new();
    let mut i: usize = start;
    while i < end
        invariant
            start <= i <= end <= v@.len(),
            out@ == v@.subrange(start as int, i as int),
        decreases end - i,
    {
        out.push(v[i]);
        i = i + 1;
        assert(out@ == v@.subrange(start as int, i as int));
    }
    out
}

/// Collapses white space of `v` into single spaces between words.
fn normalize_chars(v: &Vec<char>) -> (r: Vec<char>)
    ensures
        r@ == normalize_whitespace(v@),
{
    let mut out: Vec<char> = Vec::new();
    let mut pending = false;
    let mut i: usize = 0;
    while i < v.len()
        invariant
            i <= v@.len(),
            (out@, pending) == collapse_state(v@.take(i as int)),
        decreases v.len() - i,
    {
        let c = v[i];
        assert(v@.take(i as int + 1).drop_last() == v@.take(i as int));
        if is_whitespace(c) {
            pending = out.len() > 0;
        } else {
            if pending {
                out.push(' ');
            }
            out.push(c);
            pending = false;
        }
        i = i + 1;
    }
    assert(v@.take(v@.len() as int) == v@);
    out
}

/// `v` without white space at its start.
pub(crate) fn trim_start_chars(v: &Vec<char>) -> (r: Vec<char>)
    ensures
        r@ == trim_start_ws(v@),
{
    let mut i: usize = 0;
    assert(v@.skip(0) == v@);
    while i < v.len() && is_whitespace(v[i])
        invariant
            i <= v@.len(),
            trim_start_ws(v@.skip(i as int)) == trim_start_ws(v@),
        decreases v.len() - i,
    {
        assert(v@.skip(i as int).drop_first() == v@.skip(i + 1));
        i = i + 1;
    }
    let r = chars_take(v, i, v.len());
    assert(r@ == v@.skip(i as int));
    r
}

/// `v` without white space at either end.
pub(crate) fn trim_chars(v: &Vec<char>) -> (r: Vec<char>)
    ensures
        r@ == trim_ws(v@),
{
    let mut r = trim_start_chars(v);
    trim_end_chars(&mut r);
    r
}

/// Removes trailing white space from `v`.
pub(crate) fn trim_end_chars(v: &mut Vec<char>)
    ensures
        final(v)@ == trim_end_ws(old(v)@),
{
    while v.len() > 0 && is_whitespace(v[v.len() - 1])
        invariant
            trim_end_ws(v@) == trim_end_ws(old(v)@),
        decreases v.len(),
    {
        assert(v@.drop_last() == v@.take(v@.len() - 1));
        v.pop();
    }
}

fn compact_chars(value: &Vec<char>, max_chars: usize) -> (r: Vec<char>)
    ensures
        r@ == spec_compact_search_text(value@, max_chars as nat),
{
    let normalized = normalize_chars(value);
    if normalized.len() <= max_chars {
        return normalized;
    }
    let mut compact = chars_take(&normalized, 0, max_chars);
    assert(compact@ == normalized@.take(max_chars as int));
    trim_end_chars(&mut compact);
    compact.push('\u{2026}');
    compact
}

/// The text on one line with its white space collapsed, cut after `max_chars`
/// characters (an ellipsis then marks the cut).
pub fn compact_search_text(value: &str, max_chars: usize) -> (r: String)
    ensures
        r@ == spec_compact_search_text(value@, max_chars as nat),
{
    let chars = chars_of(value);
    let compact = compact_chars(&chars, max_chars);
    string_of(&compact)
}

/// Cuts `value` after `max_chars` characters without touching its line layout.
pub fn truncate_preserving_layout(value: &str, max_chars: usize) -> (r: String)
    ensures
        r@ == spec_truncate_preserving_layout(value@, max_chars as nat),
{
    let chars = chars_of(value);
    if chars.len() <= max_chars {
        return string_of(&chars);
    }
    let mut out = chars_take(&chars, 0, max_chars);
    out.push('\n');
    out.push('\n');
    out.push('\u{2026}');
    string_of(&out)
}

fn chars_have_non_ws(v: &Vec<char>, start: usize, end: usize) -> (r: bool)
    requires
        start <= end <= v@.len(),
    ensures
        r == has_non_ws(v@.subrange(start as int, end as int)),
{
    let ghost s = v@.subrange(start as int, end as int);
    let mut i: usize = start;
    while i < end
        invariant
            start <= i <= end <= v@.len(),
            s == v@.subrange(start as int, end as int),
            forall|j: int| start <= j < i ==> is_ws(#[trigger] v@[j]),
        decreases end - i,
    {
        if !is_whitespace(v[i]) {
            assert(!is_ws(s[i - start]));
            return true;
        }
        i = i + 1;
    }
    assert forall|j: int| 0 <= j < s.len() implies is_ws(#[trigger] s[j]) by {
        assert(s[j] == v@[j + start]);
    }
    false
}

/// The first line of `v` that is not blank, if any.
fn first_nonblank_line_chars(v: &Vec<char>) -> (r: Option<Vec<char>>)
    ensures
        match r {
            Some(line) => first_nonblank_line(v@) == Some(line@),
            None => first_nonblank_line(v@) is None,
        },
{
    let mut start: usize = 0;
    assert(v@.skip(0) == v@);
    while start <= v.len()
        invariant
            start <= v@.len() + 1,
            start <= v@.len() ==> first_nonblank_line(v@) == first_nonblank_line(v@.skip(start as int)),
            start > v@.len() ==> first_nonblank_line(v@) is None,
        decreases v@.len() + 1 - start,
    {
        let mut k: usize = start;
        while k < v.len() && v[k] != '\n'
            invariant
                start <= k <= v@.len(),
                forall|j: int| start <= j < k ==> v@[j] != '\n',
            decreases v.len() - k,
        {
            k = k + 1;
        }
        let ghost rest = v@.skip(start as int);
        proof {
            assert forall|j: int| 0 <= j < k - start implies rest[j] != '\n' by {
                assert(rest[j] == v@[j + start]);
            }
            if k < v@.len() {
                assert(rest[k - start] == v@[k as int]);
            }
            lemma_index_of_char_unique(rest, '\n', k - start);
            assert(rest.take(k - start) == v@.subrange(start as int, k as int));
        }
        if chars_have_non_ws(v, start, k) {
            return Some(chars_take(v, start, k));
        }
        if k >= v.len() {
            return None;
        }
        proof {
            assert(rest.skip(k - start + 1) == v@.skip(k + 1));
        }
        start = k + 1;
    }
    None
}

/// Removes the leading title markers of `v`.
fn trim_title_markers_chars(v: &Vec<char>) -> (r: Vec<char>)
    ensures
        r@ == trim_title_markers(v@),
{
    let mut i: usize = 0;
    assert(v@.skip(0) == v@);
    while i < v.len() && (v[i] == '#' || v[i] == '-' || v[i] == '*' || v[i] == ' ')
        invariant
            i <= v@.len(),
            trim_title_markers(v@.skip(i as int)) == trim_title_markers(v@),
        decreases v.len() - i,
    {
        assert(v@.skip(i as int).drop_first() == v@.skip(i + 1));
        i = i + 1;
    }
    let r = chars_take(v, i, v.len());
    assert(r@ == v@.skip(i as int));
    r
}

fn untitled_chars() -> (r: Vec<char>)
    ensures
        r@ == untitled(),
{
    let r = vec!['Б', 'е', 'з', ' ', 'н', 'а', 'з', 'в', 'а', 'н', 'и', 'я'];
    assert(r@ == untitled());
    r
}

/// The short title of a task: its first non-blank line, compacted to 120
/// characters, without leading Markdown markers.
pub fn compact_task_title(description: &str) -> (r: String)
    ensures
        r@ == spec_compact_task_title(description@),
{
    let chars = chars_of(description);
    let line = match first_nonblank_line_chars(&chars) {
        Some(line) => line,
        None => untitled_chars(),
    };
    let compact = compact_chars(&line, 120);
    let title = trim_title_markers_chars(&compact);
    string_of(&title)
}

/// The pieces joined with `sep` between them.
pub open spec fn join_str(parts: Seq<Seq<char>>, sep: Seq<char>) -> Seq<char>
    decreases parts.len(),
{
    if parts.len() == 0 {
        Seq::empty()
    } else if parts.len() == 1 {
        parts[0]
    } else {
        join_str(parts.drop_last(), sep) + sep + parts.last()
    }
}

pub(crate) fn push_str_chars(v: &mut Vec<char>, s: &str)
    ensures
        final(v)@ == old(v)@ + s@,
{
    let cs = chars_of(s);
    let mut i: usize = 0;
    while i < cs.len()
        invariant
            i <= cs@.len(),
            v@ == old(v)@ + cs@.take(i as int),
        decreases cs.len() - i,
    {
        v.push(cs[i]);
        i = i + 1;
        assert(v@ == old(v)@ + cs@.take(i as int));
    }
    assert(cs@.take(cs@.len() as int) == cs@);
}

pub(crate) fn push_chars(v: &mut Vec<char>, s: &Vec<char>)
    ensures
        final(v)@ == old(v)@ + s@,
{
    let mut i: usize = 0;
    while i < s.len()
        invariant
            i <= s@.len(),
            v@ == old(v)@ + s@.take(i as int),
        decreases s.len() - i,
    {
        v.push(s[i]);
        i = i + 1;
        assert(v@ == old(v)@ + s@.take(i as int));
    }
    assert(s@.take(s@.len() as int) == s@);
}

pub(crate) fn join_exec(parts: &Vec<String>, sep: &str) -> (r: Vec<char>)
    ensures
        r@ == join_str(crate::order::str_views(parts@), sep@),
{
    let ghost ps = crate::order::str_views(parts@);
    let mut out: Vec<char> = Vec::new();
    let mut i: usize = 0;
    while i < parts.len()
        invariant
            i <= parts@.len(),
            ps == crate::order::str_views(parts@),
            out@ == join_str(ps.take(i as int), sep@),
        decreases parts.len() - i,
    {
        assert(ps.take(i as int + 1).drop_last() == ps.take(i as int));
        assert(ps.take(i as int + 1).last() == parts@[i as int]@);
        if i > 0 {
            push_str_chars(&mut out, sep);
        }
        push_str_chars(&mut out, parts[i].as_str());
        i = i + 1;
    }
    assert(ps.take(parts@.len() as int) == ps);
    out
}

} // verus!
