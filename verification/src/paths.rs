use vstd::prelude::*;

use crate::chars::{chars_of, string_of};
use crate::text::{index_of_char, is_ws, trim_ws, trim_chars, lemma_index_of_char_bounds,
    lemma_index_of_char_unique, chars_take};

verus! {

/// The pieces of `s` between the occurrences of `sep` (`str::split`): one more
/// piece than there are separators, empty pieces included.
pub open spec fn split_on(s: Seq<char>, sep: char) -> Seq<Seq<char>>
    decreases s.len(),
{
    let k = index_of_char(s, sep);
    if 0 <= k < s.len() {
        seq![s.take(k)] + split_on(s.skip(k + 1), sep)
    } else {
        seq![s]
    }
}

/// The pieces joined with `sep` between them (`[&str]::join`).
pub open spec fn join_with(parts: Seq<Seq<char>>, sep: char) -> Seq<char>
    decreases parts.len(),
{
    if parts.len() == 0 {
        Seq::<char>::empty()
    } else if parts.len() == 1 {
        parts[0]
    } else {
        join_with(parts.drop_last(), sep).push(sep) + parts.last()
    }
}

/// The views of a list of character vectors.
pub open spec fn views(v: Seq<Vec<char>>) -> Seq<Seq<char>> {
    v.map_values(|x: Vec<char>| x@)
}

pub open spec fn dot() -> Seq<char> {
    seq!['.']
}

pub open spec fn dot_dot() -> Seq<char> {
    seq!['.', '.']
}

/// The kind of a component of a path, as `std::path::Component` names them
/// (a `Unix` path has no prefix component).
#[derive(PartialEq, Eq, Structural, Clone, Copy, Debug)]
pub enum PathPartKind {
    Root,
    Current,
    Parent,
    Normal,
}

/// The component that segment `i` (between `/` separators) of a non-empty path
/// contributes: a leading empty segment is the root, a leading `.` the current
/// directory; later empty and `.` segments contribute nothing.
pub open spec fn segment_part(segs: Seq<Seq<char>>, i: int) -> Option<PathPartKind> {
    let seg = segs[i];
    if i == 0 && seg.len() == 0 {
        Some(PathPartKind::Root)
    } else if i == 0 && seg == dot() {
        Some(PathPartKind::Current)
    } else if seg.len() == 0 || seg == dot() {
        None
    } else if seg == dot_dot() {
        Some(PathPartKind::Parent)
    } else {
        Some(PathPartKind::Normal)
    }
}

/// The components of segments `i..` with the index of the segment each comes from.
pub open spec fn parts_from(segs: Seq<Seq<char>>, i: int) -> Seq<(PathPartKind, int)>
    decreases segs.len() - i,
{
    if i < 0 || i >= segs.len() {
        Seq::empty()
    } else {
        match segment_part(segs, i) {
            Some(k) => seq![(k, i)] + parts_from(segs, i + 1),
            None => parts_from(segs, i + 1),
        }
    }
}

/// The components of the path `s` (`Path::components` on Unix), each with the
/// index of its segment in `split_on(s, '/')`.
pub open spec fn path_parts(s: Seq<char>) -> Seq<(PathPartKind, int)> {
    if s.len() == 0 {
        Seq::empty()
    } else {
        parts_from(split_on(s, '/'), 0)
    }
}

/// The names of the normal components of `s`, in order.
pub open spec fn normal_names(s: Seq<char>) -> Seq<Seq<char>> {
    path_parts(s).filter_map(normal_name_of(split_on(s, '/')))
}

/// The name of an indexed component if it is a normal one.
pub open spec fn normal_name_of(segs: Seq<Seq<char>>) -> spec_fn((PathPartKind, int)) -> Option<Seq<char>> {
    |p: (PathPartKind, int)|
        if p.0 == PathPartKind::Normal {
            Some(segs[p.1])
        } else {
            None
        }
}

/// Whether `s` has a component of kind `k`.
pub open spec fn has_part(s: Seq<char>, k: PathPartKind) -> bool {
    exists|j: int| 0 <= j < path_parts(s).len() && (#[trigger] path_parts(s)[j]).0 == k
}

pub open spec fn msg_parent_dir() -> Seq<char> {
    "Путь источника не может содержать .."@
}

pub open spec fn msg_not_relative() -> Seq<char> {
    "Используйте относительный путь внутри источника"@
}

/// What `validate_resource_relative_path` returns: the trimmed path rebuilt from
/// its normal components, or the error for a rooted path or one that climbs
/// with `..`.
pub open spec fn spec_validate_relative_path(value: Seq<char>) -> Result<Seq<char>, Seq<char>> {
    let p = trim_ws(value);
    if has_part(p, PathPartKind::Root) {
        Err(msg_not_relative())
    } else if has_part(p, PathPartKind::Parent) {
        Err(msg_parent_dir())
    } else {
        Ok(join_with(normal_names(p), '/'))
    }
}

proof fn lemma_split_on_nonempty(s: Seq<char>, sep: char)
    ensures
        split_on(s, sep).len() >= 1,
    decreases s.len(),
{
    let k = index_of_char(s, sep);
    if 0 <= k < s.len() {
        lemma_split_on_nonempty(s.skip(k + 1), sep);
    }
}

/// Splits `v` at every `sep`.
pub(crate) fn split_chars(v: &Vec<char>, sep: char) -> (r: Vec<Vec<char>>)
    ensures
        views(r@) == split_on(v@, sep),
{
    let mut out: Vec<Vec<char>> = Vec::new();
    let mut start: usize = 0;
    assert(v@.skip(0) == v@);
    loop
        invariant
            start <= v@.len(),
            views(out@) + split_on(v@.skip(start as int), sep) == split_on(v@, sep),
        decreases v@.len() - start,
    {
        let mut k: usize = start;
        while k < v.len() && v[k] != sep
            invariant
                start <= k <= v@.len(),
                forall|j: int| start <= j < k ==> v@[j] != sep,
            decreases v.len() - k,
        {
            k = k + 1;
        }
        let ghost rest = v@.skip(start as int);
        proof {
            assert forall|j: int| 0 <= j < k - start implies rest[j] != sep by {
                assert(rest[j] == v@[j + start]);
            }
            if k < v@.len() {
                assert(rest[k - start] == v@[k as int]);
            }
            lemma_index_of_char_unique(rest, sep, k - start);
            assert(rest.take(k - start) == v@.subrange(start as int, k as int));
        }
        let piece = chars_take(v, start, k);
        let ghost before = out@;
        out.push(piece);
        assert(views(out@) == views(before).push(piece@));
        if k >= v.len() {
            assert(rest.take(k - start) == rest);
            assert(views(out@) == split_on(v@, sep));
            return out;
        }
        proof {
            assert(rest.skip(k - start + 1) == v@.skip(k + 1));
            assert(split_on(rest, sep) == seq![piece@] + split_on(v@.skip(k + 1), sep));
            assert(views(out@) + split_on(v@.skip(k + 1), sep) == views(before) + (seq![piece@]
                + split_on(v@.skip(k + 1), sep)));
        }
        start = k + 1;
    }
}


/// The exec form of a list of indexed components.
pub open spec fn indexed(v: Seq<(PathPartKind, usize)>) -> Seq<(PathPartKind, int)> {
    v.map_values(|p: (PathPartKind, usize)| (p.0, p.1 as int))
}

fn is_dot(seg: &Vec<char>) -> (r: bool)
    ensures
        r == (seg@ == dot()),
{
    if seg.len() == 1 && seg[0] == '.' {
        assert(seg@ == dot());
        true
    } else {
        false
    }
}

fn is_dot_dot(seg: &Vec<char>) -> (r: bool)
    ensures
        r == (seg@ == dot_dot()),
{
    if seg.len() == 2 && seg[0] == '.' && seg[1] == '.' {
        assert(seg@ == dot_dot());
        true
    } else {
        false
    }
}

fn segment_part_exec(segs: &Vec<Vec<char>>, i: usize) -> (r: Option<PathPartKind>)
    requires
        i < segs@.len(),
    ensures
        r == segment_part(views(segs@), i as int),
{
    let seg = &segs[i];
    assert(views(segs@)[i as int] == seg@);
    if i == 0 && seg.len() == 0 {
        Some(PathPartKind::Root)
    } else if i == 0 && is_dot(seg) {
        Some(PathPartKind::Current)
    } else if seg.len() == 0 || is_dot(seg) {
        None
    } else if is_dot_dot(seg) {
        Some(PathPartKind::Parent)
    } else {
        Some(PathPartKind::Normal)
    }
}

/// The components of the path whose `/`-segments are `segs`.
pub(crate) fn parts_of_segments(segs: &Vec<Vec<char>>) -> (r: Vec<(PathPartKind, usize)>)
    ensures
        indexed(r@) == parts_from(views(segs@), 0),
        forall|j: int| 0 <= j < r@.len() ==> (#[trigger] r@[j]).1 < segs@.len(),
{
    let mut out: Vec<(PathPartKind, usize)> = Vec::new();
    let mut i: usize = 0;
    while i < segs.len()
        invariant
            i <= segs@.len(),
            indexed(out@) + parts_from(views(segs@), i as int) == parts_from(views(segs@), 0),
            forall|j: int| 0 <= j < out@.len() ==> (#[trigger] out@[j]).1 < i,
        decreases segs.len() - i,
    {
        let ghost before = out@;
        match segment_part_exec(segs, i) {
            Some(k) => {
                out.push((k, i));
                assert(indexed(out@) == indexed(before).push((k, i as int)));
                assert(indexed(out@) + parts_from(views(segs@), i + 1) == indexed(before) + (seq![
                    (k, i as int),
                ] + parts_from(views(segs@), i + 1)));
            },
            None => {},
        }
        i = i + 1;
    }
    out
}

/// The `/`-segments of `v` and its components.
pub(crate) fn path_parts_exec(v: &Vec<char>) -> (r: (Vec<Vec<char>>, Vec<(PathPartKind, usize)>))
    ensures
        views(r.0@) == split_on(v@, '/'),
        indexed(r.1@) == path_parts(v@),
        forall|j: int| 0 <= j < r.1@.len() ==> (#[trigger] r.1@[j]).1 < r.0@.len(),
{
    let segs = split_chars(v, '/');
    if v.len() == 0 {
        let empty: Vec<(PathPartKind, usize)> = Vec::new();
        assert(indexed(empty@) == Seq::<(PathPartKind, int)>::empty());
        return (segs, empty);
    }
    let parts = parts_of_segments(&segs);
    (segs, parts)
}

fn has_kind(parts: &Vec<(PathPartKind, usize)>, k: PathPartKind) -> (r: bool)
    ensures
        r == exists|j: int| 0 <= j < parts@.len() && (#[trigger] parts@[j]).0 == k,
{
    let mut i: usize = 0;
    while i < parts.len()
        invariant
            i <= parts@.len(),
            forall|j: int| 0 <= j < i ==> (#[trigger] parts@[j]).0 != k,
        decreases parts.len() - i,
    {
        if parts[i].0 == k {
            return true;
        }
        i = i + 1;
    }
    false
}

/// Joins the pieces with `sep` between them.
pub(crate) fn join_chars(parts: &Vec<Vec<char>>, sep: char) -> (r: Vec<char>)
    ensures
        r@ == join_with(views(parts@), sep),
{
    let mut out: Vec<char> = Vec::new();
    let mut i: usize = 0;
    while i < parts.len()
        invariant
            i <= parts@.len(),
            out@ == join_with(views(parts@).take(i as int), sep),
        decreases parts.len() - i,
    {
        let ghost prefix = views(parts@).take(i as int + 1);
        assert(prefix.drop_last() == views(parts@).take(i as int));
        assert(prefix.last() == parts@[i as int]@);
        if i > 0 {
            out.push(sep);
        }
        let piece = &parts[i];
        let mut j: usize = 0;
        let ghost base = out@;
        while j < piece.len()
            invariant
                j <= piece@.len(),
                out@ == base + piece@.take(j as int),
            decreases piece.len() - j,
        {
            out.push(piece[j]);
            j = j + 1;
            assert(out@ == base + piece@.take(j as int));
        }
        assert(piece@.take(j as int) == piece@);
        i = i + 1;
    }
    assert(views(parts@).take(parts@.len() as int) == views(parts@));
    out
}

/// The normal component names of a path, given its segments and components.
fn normal_names_exec(segs: &Vec<Vec<char>>, parts: &Vec<(PathPartKind, usize)>) -> (r: Vec<Vec<char>>)
    requires
        forall|j: int| 0 <= j < parts@.len() ==> (#[trigger] parts@[j]).1 < segs@.len(),
    ensures
        views(r@) == indexed(parts@).filter_map(normal_name_of(views(segs@))),
{
    let ghost f = normal_name_of(views(segs@));
    let mut out: Vec<Vec<char>> = Vec::new();
    let mut i: usize = 0;
    while i < parts.len()
        invariant
            i <= parts@.len(),
            forall|j: int| 0 <= j < parts@.len() ==> (#[trigger] parts@[j]).1 < segs@.len(),
            f == normal_name_of(views(segs@)),
            views(out@) == indexed(parts@).take(i as int).filter_map(f),
        decreases parts.len() - i,
    {
        let ghost t = indexed(parts@).take(i as int + 1);
        assert(t.drop_last() == indexed(parts@).take(i as int));
        assert(t.last() == (parts@[i as int].0, parts@[i as int].1 as int));
        let (k, idx) = parts[i];
        assert(k == parts@[i as int].0);
        assert(t.last().0 == k);
        assert(t.last().1 == idx as int);
        assert(t.filter_map(f) == match f(t.last()) {
            Some(x) => t.drop_last().filter_map(f) + seq![x],
            None => t.drop_last().filter_map(f),
        });
        if k == PathPartKind::Normal {
            let name = chars_take(&segs[idx], 0, segs[idx].len());
            let ghost before = out@;
            out.push(name);
            assert(segs@[idx as int]@.subrange(0, segs@[idx as int]@.len() as int) == segs@[idx as int]@);
            assert(views(out@) == views(before) + seq![views(segs@)[idx as int]]);
            assert(f(t.last()) == Some(views(segs@)[idx as int]));
            assert(views(out@) == t.filter_map(f));
        } else {
            assert(f(t.last()) is None);
            assert(views(out@) == t.filter_map(f));
        }
        i = i + 1;
    }
    assert(indexed(parts@).take(parts@.len() as int) == indexed(parts@));
    out
}

/// The validation of a relative path given as characters.
pub(crate) fn validate_relative_chars(v: &Vec<char>) -> (r: Result<Vec<char>, bool>)
    ensures
        match r {
            Ok(path) => spec_validate_relative_path(v@) == Ok::<Seq<char>, Seq<char>>(path@),
            Err(rooted) => spec_validate_relative_path(v@) == Err::<Seq<char>, Seq<char>>(
                if rooted { msg_not_relative() } else { msg_parent_dir() },
            ),
        },
{
    let p = trim_chars(v);
    let (segs, parts) = path_parts_exec(&p);
    if has_kind(&parts, PathPartKind::Root) {
        proof {
            let j = choose|j: int| 0 <= j < parts@.len() && (#[trigger] parts@[j]).0 == PathPartKind::Root;
            assert(path_parts(p@)[j].0 == PathPartKind::Root);
        }
        return Err(true);
    }
    if has_kind(&parts, PathPartKind::Parent) {
        proof {
            let j = choose|j: int| 0 <= j < parts@.len() && (#[trigger] parts@[j]).0 == PathPartKind::Parent;
            assert(path_parts(p@)[j].0 == PathPartKind::Parent);
        }
        return Err(false);
    }
    proof {
        assert forall|j: int| 0 <= j < path_parts(p@).len() implies (#[trigger] path_parts(p@)[j]).0
            != PathPartKind::Root && path_parts(p@)[j].0 != PathPartKind::Parent by {
            assert(path_parts(p@)[j].0 == parts@[j].0);
        }
    }
    let names = normal_names_exec(&segs, &parts);
    Ok(join_chars(&names, '/'))
}

/// A relative path inside a project resource, rebuilt from its normal
/// components; rooted paths and paths that climb with `..` are refused.
pub fn validate_resource_relative_path(value: &str) -> (r: Result<String, String>)
    ensures
        match r {
            Ok(path) => spec_validate_relative_path(value@) == Ok::<Seq<char>, Seq<char>>(path@),
            Err(message) => spec_validate_relative_path(value@) == Err::<Seq<char>, Seq<char>>(
                message@,
            ),
        },
{
    let chars = chars_of(value);
    match validate_relative_chars(&chars) {
        Ok(path) => Ok(string_of(&path)),
        Err(true) => Err(String::from_str("Используйте относительный путь внутри источника")),
        Err(false) => Err(String::from_str("Путь источника не может содержать ..")),
    }
}

/// `s` with every backslash turned into a forward slash.
pub open spec fn forward_slashes(s: Seq<char>) -> Seq<char> {
    s.map_values(|c: char| if c == '\\' { '/' } else { c })
}

/// What `relative_path_display` returns: `.` for the empty path, otherwise the
/// path with forward slashes.
pub open spec fn spec_relative_path_display(path: Seq<char>) -> Seq<char> {
    if path.len() == 0 {
        dot()
    } else {
        forward_slashes(path)
    }
}

pub(crate) fn display_chars(v: &Vec<char>) -> (r: Vec<char>)
    ensures
        r@ == spec_relative_path_display(v@),
{
    if v.len() == 0 {
        let r = vec!['.'];
        assert(r@ == dot());
        return r;
    }
    let mut out: Vec<char> = Vec::new();
    let mut i: usize = 0;
    while i < v.len()
        invariant
            i <= v@.len(),
            out@ == forward_slashes(v@.take(i as int)),
        decreases v.len() - i,
    {
        let c = v[i];
        out.push(if c == '\\' { '/' } else { c });
        i = i + 1;
        assert(out@ == forward_slashes(v@.take(i as int)));
    }
    assert(v@.take(v@.len() as int) == v@);
    out
}

/// A path as shown to agents: forward slashes, and `.` for the empty path.
pub fn relative_path_display(path: &str) -> (r: String)
    ensures
        r@ == spec_relative_path_display(path@),
{
    let chars = chars_of(path);
    let shown = display_chars(&chars);
    string_of(&shown)
}

/// ASCII lowercase of one character (`char::to_ascii_lowercase`).
pub open spec fn ascii_lower(c: char) -> char {
    if 'A' <= c <= 'Z' {
        ((c as u32 + 32) as u8) as char
    } else {
        c
    }
}

pub open spec fn ascii_lower_seq(s: Seq<char>) -> Seq<char> {
    s.map_values(|c: char| ascii_lower(c))
}

pub(crate) fn ascii_lower_chars(v: &Vec<char>) -> (r: Vec<char>)
    ensures
        r@ == ascii_lower_seq(v@),
{
    let mut out: Vec<char> = Vec::new();
    let mut i: usize = 0;
    while i < v.len()
        invariant
            i <= v@.len(),
            out@ == ascii_lower_seq(v@.take(i as int)),
        decreases v.len() - i,
    {
        let c = v[i];
        let l = if 'A' <= c && c <= 'Z' {
            ((c as u32 + 32) as u8) as char
        } else {
            c
        };
        out.push(l);
        i = i + 1;
        assert(out@ == ascii_lower_seq(v@.take(i as int)));
    }
    assert(v@.take(v@.len() as int) == v@);
    out
}

/// Whether `s` begins with `p`.
pub open spec fn starts_with(s: Seq<char>, p: Seq<char>) -> bool {
    p.len() <= s.len() && s.take(p.len() as int) == p
}

/// Whether `s` ends with `p`.
pub open spec fn ends_with(s: Seq<char>, p: Seq<char>) -> bool {
    p.len() <= s.len() && s.skip(s.len() - p.len()) == p
}

pub(crate) fn chars_starts_with(s: &Vec<char>, p: &Vec<char>) -> (r: bool)
    ensures
        r == starts_with(s@, p@),
{
    if p.len() > s.len() {
        return false;
    }
    let mut i: usize = 0;
    while i < p.len()
        invariant
            i <= p@.len() <= s@.len(),
            forall|j: int| 0 <= j < i ==> s@[j] == p@[j],
        decreases p.len() - i,
    {
        if s[i] != p[i] {
            assert(s@.take(p@.len() as int)[i as int] != p@[i as int]);
            return false;
        }
        i = i + 1;
    }
    assert(s@.take(p@.len() as int) == p@);
    true
}

pub(crate) fn chars_ends_with(s: &Vec<char>, p: &Vec<char>) -> (r: bool)
    ensures
        r == ends_with(s@, p@),
{
    if p.len() > s.len() {
        return false;
    }
    let sl = s.len();
    let off = sl - p.len();
    let mut i: usize = 0;
    while i < p.len()
        invariant
            i <= p@.len() <= s@.len(),
            off == s@.len() - p@.len(),
            off + p@.len() == sl,
            sl == s@.len(),
            forall|j: int| 0 <= j < i ==> s@[off + j] == p@[j],
        decreases p.len() - i,
    {
        if s[off + i] != p[i] {
            assert(s@.skip(off as int)[i as int] != p@[i as int]);
            return false;
        }
        i = i + 1;
    }
    assert(s@.skip(off as int) == p@);
    true
}

pub(crate) fn chars_eq(a: &Vec<char>, b: &Vec<char>) -> (r: bool)
    ensures
        r == (a@ == b@),
{
    if a.len() != b.len() {
        return false;
    }
    let mut i: usize = 0;
    while i < a.len()
        invariant
            i <= a@.len() == b@.len(),
            forall|j: int| 0 <= j < i ==> a@[j] == b@[j],
        decreases a.len() - i,
    {
        if a[i] != b[i] {
            return false;
        }
        i = i + 1;
    }
    assert(a@ == b@);
    true
}

/// Whether `v` equals the literal `lit`.
pub(crate) fn chars_is(v: &Vec<char>, lit: &str) -> (r: bool)
    ensures
        r == (v@ == lit@),
{
    let l = chars_of(lit);
    chars_eq(v, &l)
}

/// Whether an ASCII-lowercased file name names a credential or secret.
pub open spec fn is_secret_name(name: Seq<char>) -> bool {
    ||| name == ".env"@
    ||| starts_with(name, ".env."@)
    ||| name == "credentials"@
    ||| name == "credentials.json"@
    ||| name == "secrets"@
    ||| name == "secrets.json"@
    ||| name == "secrets.yml"@
    ||| name == "secrets.yaml"@
    ||| name == "id_rsa"@
    ||| name == "id_ed25519"@
    ||| ends_with(name, ".pem"@)
    ||| ends_with(name, ".key"@)
    ||| ends_with(name, ".p12"@)
    ||| ends_with(name, ".pfx"@)
}

fn secret_name(name: &Vec<char>) -> (r: bool)
    ensures
        r == is_secret_name(name@),
{
    chars_is(name, ".env") || chars_starts_with(name, &chars_of(".env.")) || chars_is(
        name,
        "credentials",
    ) || chars_is(name, "credentials.json") || chars_is(name, "secrets") || chars_is(
        name,
        "secrets.json",
    ) || chars_is(name, "secrets.yml") || chars_is(name, "secrets.yaml") || chars_is(name, "id_rsa")
        || chars_is(name, "id_ed25519") || chars_ends_with(name, &chars_of(".pem"))
        || chars_ends_with(name, &chars_of(".key")) || chars_ends_with(name, &chars_of(".p12"))
        || chars_ends_with(name, &chars_of(".pfx"))
}

/// Whether an ASCII-lowercased directory name is a dependency or build output.
pub open spec fn is_generated_name(name: Seq<char>) -> bool {
    ||| name == ".git"@
    ||| name == "node_modules"@
    ||| name == "target"@
    ||| name == "dist"@
    ||| name == "build"@
    ||| name == ".svelte-kit"@
    ||| name == ".next"@
}

fn generated_name(name: &Vec<char>) -> (r: bool)
    ensures
        r == is_generated_name(name@),
{
    chars_is(name, ".git") || chars_is(name, "node_modules") || chars_is(name, "target")
        || chars_is(name, "dist") || chars_is(name, "build") || chars_is(name, ".svelte-kit")
        || chars_is(name, ".next")
}

/// Whether a directory name (any letter case) is a dependency or build output
/// that resource listings skip.
pub fn resource_directory_is_generated(name: &str) -> (r: bool)
    ensures
        r == is_generated_name(ascii_lower_seq(name@)),
{
    let chars = chars_of(name);
    let lower = ascii_lower_chars(&chars);
    generated_name(&lower)
}

/// Whether some normal component of `s`, ASCII-lowercased, satisfies `pred`.
pub open spec fn some_normal_name(s: Seq<char>, pred: spec_fn(Seq<char>) -> bool) -> bool {
    exists|j: int|
        0 <= j < path_parts(s).len() && (#[trigger] path_parts(s)[j]).0 == PathPartKind::Normal
            && pred(ascii_lower_seq(split_on(s, '/')[path_parts(s)[j].1]))
}

/// Whether the path has a component that names a credential or secret.
pub open spec fn spec_path_looks_secret(path: Seq<char>) -> bool {
    some_normal_name(path, |n: Seq<char>| is_secret_name(n))
}

/// Whether the path passes through a dependency or build output directory.
pub open spec fn spec_path_in_generated_dir(path: Seq<char>) -> bool {
    some_normal_name(path, |n: Seq<char>| is_generated_name(n))
}

/// Whether one of the normal components of `v` satisfies the secret (`secret`)
/// or the generated-directory test.
fn any_normal_name(v: &Vec<char>, secret: bool) -> (r: bool)
    ensures
        r == some_normal_name(
            v@,
            if secret {
                |n: Seq<char>| is_secret_name(n)
            } else {
                |n: Seq<char>| is_generated_name(n)
            },
        ),
{
    let ghost pred = if secret {
        |n: Seq<char>| is_secret_name(n)
    } else {
        |n: Seq<char>| is_generated_name(n)
    };
    let (segs, parts) = path_parts_exec(v);
    let mut i: usize = 0;
    while i < parts.len()
        invariant
            i <= parts@.len(),
            indexed(parts@) == path_parts(v@),
            views(segs@) == split_on(v@, '/'),
            forall|j: int| 0 <= j < parts@.len() ==> (#[trigger] parts@[j]).1 < segs@.len(),
            pred == (if secret {
                |n: Seq<char>| is_secret_name(n)
            } else {
                |n: Seq<char>| is_generated_name(n)
            }),
            forall|j: int|
                0 <= j < i ==> !((#[trigger] path_parts(v@)[j]).0 == PathPartKind::Normal && pred(
                    ascii_lower_seq(split_on(v@, '/')[path_parts(v@)[j].1]),
                )),
        decreases parts.len() - i,
    {
        let (k, idx) = parts[i];
        assert(path_parts(v@)[i as int] == (k, idx as int));
        if k == PathPartKind::Normal {
            let lower = ascii_lower_chars(&segs[idx]);
            assert(split_on(v@, '/')[idx as int] == segs@[idx as int]@);
            let hit = if secret {
                secret_name(&lower)
            } else {
                generated_name(&lower)
            };
            if hit {
                return true;
            }
        }
        i = i + 1;
    }
    false
}

/// Whether a path names a credential or secret file (`.env`, keys, secrets
/// files) in any of its components; such paths are never shown to agents.
pub fn resource_path_looks_secret(path: &str) -> (r: bool)
    ensures
        r == spec_path_looks_secret(path@),
{
    let chars = chars_of(path);
    any_normal_name(&chars, true)
}

/// Whether a path passes through a dependency or build output directory.
pub fn path_in_generated_directory(path: &str) -> (r: bool)
    ensures
        r == spec_path_in_generated_dir(path@),
{
    let chars = chars_of(path);
    any_normal_name(&chars, false)
}

/// Whether a segment contributes no component once a path is past its start
/// (an empty segment or `.`).
pub open spec fn is_filler_segment(seg: Seq<char>) -> bool {
    seg.len() == 0 || seg == dot()
}

/// The segments without leading filler segments.
pub open spec fn trim_front_fillers(segs: Seq<Seq<char>>) -> Seq<Seq<char>>
    decreases segs.len(),
{
    if segs.len() > 0 && is_filler_segment(segs[0]) {
        trim_front_fillers(segs.drop_first())
    } else {
        segs
    }
}

/// The segments without trailing filler segments.
pub open spec fn trim_back_fillers(segs: Seq<Seq<char>>) -> Seq<Seq<char>>
    decreases segs.len(),
{
    if segs.len() > 0 && is_filler_segment(segs.last()) {
        trim_back_fillers(segs.drop_last())
    } else {
        segs
    }
}

/// Whether the components of `base` are the first components of `path`
/// (normal components compared by name).
pub open spec fn parts_are_prefix(path: Seq<char>, base: Seq<char>) -> bool {
    let pp = path_parts(path);
    let bp = path_parts(base);
    let ps = split_on(path, '/');
    let bs = split_on(base, '/');
    &&& bp.len() <= pp.len()
    &&& forall|i: int|
        0 <= i < bp.len() ==> (#[trigger] pp[i]).0 == bp[i].0 && (bp[i].0 == PathPartKind::Normal
            ==> ps[pp[i].1] == bs[bp[i].1])
}

/// `Path::strip_prefix` for a non-empty `base` on Unix: when the components of
/// `base` begin those of `path`, the text of `path` after them, without leading
/// or trailing empty and `.` segments.
pub open spec fn spec_strip_prefix(path: Seq<char>, base: Seq<char>) -> Option<Seq<char>> {
    if parts_are_prefix(path, base) && path_parts(base).len() > 0 {
        let after = path_parts(path)[path_parts(base).len() - 1].1 + 1;
        Some(
            join_with(
                trim_back_fillers(trim_front_fillers(split_on(path, '/').skip(after))),
                '/',
            ),
        )
    } else {
        None
    }
}

/// What `scope_repository_relative_path` returns: the path relative to the
/// configured directory inside the repository (`configured_prefix`, empty for
/// the repository root), shown with forward slashes, when it lies inside that
/// directory, is not the directory itself and is a valid relative path.
pub open spec fn spec_scope_repository_relative_path(path: Seq<char>, configured_prefix: Seq<
    char,
>) -> Option<Seq<char>> {
    let scoped = if configured_prefix.len() == 0 {
        Some(path)
    } else {
        spec_strip_prefix(path, configured_prefix)
    };
    match scoped {
        None => None,
        Some(scoped) => {
            let shown = spec_relative_path_display(scoped);
            if scoped.len() == 0 || spec_validate_relative_path(shown) is Err {
                None
            } else {
                Some(shown)
            }
        },
    }
}

/// Removes filler segments from both ends of `segs[from..]`.
fn trimmed_segment_range(segs: &Vec<Vec<char>>, from: usize) -> (r: Vec<Vec<char>>)
    requires
        from <= segs@.len(),
    ensures
        views(r@) == trim_back_fillers(trim_front_fillers(views(segs@).skip(from as int))),
{
    let mut lo: usize = from;
    while lo < segs.len() && (segs[lo].len() == 0 || is_dot(&segs[lo]))
        invariant
            from <= lo <= segs@.len(),
            trim_front_fillers(views(segs@).skip(lo as int)) == trim_front_fillers(
                views(segs@).skip(from as int),
            ),
        decreases segs.len() - lo,
    {
        assert(views(segs@).skip(lo as int).drop_first() == views(segs@).skip(lo + 1));
        assert(views(segs@).skip(lo as int)[0] == segs@[lo as int]@);
        lo = lo + 1;
    }
    proof {
        if lo < segs@.len() {
            assert(views(segs@).skip(lo as int)[0] == segs@[lo as int]@);
        }
    }
    let mut hi: usize = segs.len();
    assert(views(segs@).skip(lo as int) == views(segs@).subrange(lo as int, hi as int));
    while hi > lo && (segs[hi - 1].len() == 0 || is_dot(&segs[hi - 1]))
        invariant
            lo <= hi <= segs@.len(),
            trim_back_fillers(views(segs@).subrange(lo as int, hi as int)) == trim_back_fillers(
                trim_front_fillers(views(segs@).skip(from as int)),
            ),
        decreases hi,
    {
        assert(views(segs@).subrange(lo as int, hi as int).drop_last() == views(segs@).subrange(
            lo as int,
            hi - 1,
        ));
        assert(views(segs@).subrange(lo as int, hi as int).last() == segs@[hi - 1]@);
        hi = hi - 1;
    }
    proof {
        if hi > lo {
            assert(views(segs@).subrange(lo as int, hi as int).last() == segs@[hi - 1]@);
        }
    }
    let mut out: Vec<Vec<char>> = Vec::new();
    let mut i: usize = lo;
    while i < hi
        invariant
            lo <= i <= hi <= segs@.len(),
            views(out@) == views(segs@).subrange(lo as int, i as int),
        decreases hi - i,
    {
        let piece = chars_take(&segs[i], 0, segs[i].len());
        assert(piece@ == segs@[i as int]@);
        let ghost before = out@;
        out.push(piece);
        assert(views(out@) == views(before).push(piece@));
        assert(views(segs@).subrange(lo as int, i + 1) == views(segs@).subrange(lo as int, i as int).push(segs@[i as int]@));
        i = i + 1;
        assert(views(out@) == views(segs@).subrange(lo as int, i as int));
    }
    out
}

proof fn lemma_parts_from_first(segs: Seq<Seq<char>>)
    requires
        segs.len() >= 1,
    ensures
        parts_from(segs, 0).len() >= 1,
        parts_from(segs, 0)[0].1 == 0,
{
    assert(segment_part(segs, 0) is Some);
}

/// The text of `path` after the components of the non-empty `base`
/// (`Path::strip_prefix` on Unix).
pub(crate) fn strip_prefix_chars(path: &Vec<char>, base: &Vec<char>) -> (r: Option<Vec<char>>)
    requires
        base@.len() > 0,
    ensures
        match r {
            Some(rest) => spec_strip_prefix(path@, base@) == Some(rest@),
            None => spec_strip_prefix(path@, base@) is None,
        },
{
    let (psegs, pparts) = path_parts_exec(path);
    let (bsegs, bparts) = path_parts_exec(base);
    proof {
        lemma_split_on_nonempty(base@, '/');
        lemma_parts_from_first(split_on(base@, '/'));
    }
    if bparts.len() > pparts.len() {
        return None;
    }
    let mut i: usize = 0;
    while i < bparts.len()
        invariant
            i <= bparts@.len() <= pparts@.len(),
            indexed(pparts@) == path_parts(path@),
            indexed(bparts@) == path_parts(base@),
            views(psegs@) == split_on(path@, '/'),
            views(bsegs@) == split_on(base@, '/'),
            forall|j: int| 0 <= j < pparts@.len() ==> (#[trigger] pparts@[j]).1 < psegs@.len(),
            forall|j: int| 0 <= j < bparts@.len() ==> (#[trigger] bparts@[j]).1 < bsegs@.len(),
            forall|j: int|
                0 <= j < i ==> (#[trigger] path_parts(path@)[j]).0 == path_parts(base@)[j].0 && (
                path_parts(base@)[j].0 == PathPartKind::Normal ==> split_on(path@, '/')[path_parts(
                path@)[j].1] == split_on(base@, '/')[path_parts(base@)[j].1]),
        decreases bparts.len() - i,
    {
        let (pk, pi) = pparts[i];
        let (bk, bi) = bparts[i];
        assert(path_parts(path@)[i as int] == (pk, pi as int));
        assert(path_parts(base@)[i as int] == (bk, bi as int));
        if pk != bk {
            return None;
        }
        if bk == PathPartKind::Normal {
            assert(split_on(path@, '/')[pi as int] == psegs@[pi as int]@);
            assert(split_on(base@, '/')[bi as int] == bsegs@[bi as int]@);
            if !chars_eq(&psegs[pi], &bsegs[bi]) {
                return None;
            }
        }
        i = i + 1;
    }
    let n = psegs.len();
    let last = pparts[bparts.len() - 1].1;
    assert(pparts@[bparts.len() - 1].1 < psegs@.len());
    assert(path_parts(path@)[path_parts(base@).len() - 1].1 == last as int);
    let rest = trimmed_segment_range(&psegs, last + 1);
    Some(join_chars(&rest, '/'))
}

/// A path reported by Git relative to the configured directory inside the
/// repository (`configured_prefix`, empty for the repository root), shown with
/// forward slashes; `None` when it lies outside that directory, is the
/// directory itself, or is not a valid relative path.
pub fn scope_repository_relative_path(path: &str, configured_prefix: &str) -> (r: Option<String>)
    ensures
        match r {
            Some(shown) => spec_scope_repository_relative_path(path@, configured_prefix@) == Some(
                shown@,
            ),
            None => spec_scope_repository_relative_path(path@, configured_prefix@) is None,
        },
{
    let p = chars_of(path);
    let prefix = chars_of(configured_prefix);
    let scoped = if prefix.len() == 0 {
        p
    } else {
        match strip_prefix_chars(&p, &prefix) {
            Some(rest) => rest,
            None => return None,
        }
    };
    if scoped.len() == 0 {
        return None;
    }
    let shown = display_chars(&scoped);
    match validate_relative_chars(&shown) {
        Ok(_) => Some(string_of(&shown)),
        Err(_) => None,
    }
}

} // verus!
