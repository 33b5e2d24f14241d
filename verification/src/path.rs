//! Paths as sequences of characters.
//!
//! A path is cut into segments at every separator. A segment that is empty
//! or a single dot leads nowhere; every other segment is a step, and the
//! steps of a path, in order, say where it leads from its starting point.
//! The functions here work on the text alone and never look at a file
//! system.

use vstd::prelude::*;

verus! {

/// The character that separates the segments of a path.
pub const SEPARATOR: char = '/';

/// Index of the first separator at or after `i`, or the length of `s` if
/// there is none: the end of the segment that starts at `i`.
pub open spec fn segment_end(s: Seq<char>, i: int) -> int
    decreases s.len() - i,
{
    if i < 0 || i >= s.len() || s[i] == SEPARATOR {
        i
    } else {
        segment_end(s, i + 1)
    }
}

/// Start of the segment that ends at `hi`, looking no further back than
/// `lo`: the index after the last separator in `s[lo..hi]`, or `lo`.
pub open spec fn segment_start(s: Seq<char>, lo: int, hi: int) -> int
    decreases hi - lo,
{
    if hi <= lo || hi > s.len() || s[hi - 1] == SEPARATOR {
        hi
    } else {
        segment_start(s, lo, hi - 1)
    }
}

/// A segment that moves somewhere: neither empty nor the single dot that
/// stands for the directory itself.
pub open spec fn is_step(segment: Seq<char>) -> bool {
    segment.len() > 0 && !(segment.len() == 1 && segment[0] == '.')
}

/// The segment that names the directory above.
pub open spec fn parent_ref() -> Seq<char> {
    seq!['.', '.']
}

/// The steps of `s` from the segment that starts at `i` on, in order.
pub open spec fn steps_from(s: Seq<char>, i: int) -> Seq<Seq<char>>
    decreases s.len() + 1 - i,
    via steps_from_terminates
{
    if i < 0 || i >= s.len() {
        Seq::empty()
    } else {
        let j = segment_end(s, i);
        let rest = steps_from(s, j + 1);
        if is_step(s.subrange(i, j)) {
            seq![s.subrange(i, j)] + rest
        } else {
            rest
        }
    }
}

#[via_fn]
proof fn steps_from_terminates(s: Seq<char>, i: int) {
    if 0 <= i < s.len() {
        lemma_segment_end_bounds(s, i);
    }
}

/// The steps of the whole path.
pub open spec fn steps(s: Seq<char>) -> Seq<Seq<char>> {
    steps_from(s, 0)
}

/// Whether the path starts at the root.
pub open spec fn has_root(s: Seq<char>) -> bool {
    s.len() > 0 && s[0] == SEPARATOR
}

/// Whether the path starts with a segment that is a single dot.
pub open spec fn leads_with_dot(s: Seq<char>) -> bool {
    s.len() > 0 && s[0] == '.' && (s.len() == 1 || s[1] == SEPARATOR)
}

/// Whether some step of the path names the directory above.
pub open spec fn has_parent_ref(s: Seq<char>) -> bool {
    steps(s).contains(parent_ref())
}

/// A segment that starts inside `s` ends at or after its start and inside
/// `s`, on a separator or at the end, and holds no separator.
pub proof fn lemma_segment_end_bounds(s: Seq<char>, i: int)
    requires
        0 <= i <= s.len(),
    ensures
        i <= segment_end(s, i) <= s.len(),
        segment_end(s, i) < s.len() ==> s[segment_end(s, i)] == SEPARATOR,
        forall|k: int| i <= k < segment_end(s, i) ==> s[k] != SEPARATOR,
    decreases s.len() - i,
{
    if i < s.len() && s[i] != SEPARATOR {
        lemma_segment_end_bounds(s, i + 1);
    }
}

/// The first separator at or after `i` is where the segment ends.
pub proof fn lemma_segment_end_is(s: Seq<char>, i: int, j: int)
    requires
        0 <= i <= j <= s.len(),
        forall|k: int| i <= k < j ==> s[k] != SEPARATOR,
        j < s.len() ==> s[j] == SEPARATOR,
    ensures
        segment_end(s, i) == j,
    decreases j - i,
{
    if i < j {
        lemma_segment_end_is(s, i + 1, j);
    }
}

/// A segment that ends inside `s` starts between `lo` and its end, after a
/// separator or at `lo`, and holds no separator.
pub proof fn lemma_segment_start_bounds(s: Seq<char>, lo: int, hi: int)
    requires
        0 <= lo <= hi <= s.len(),
    ensures
        lo <= segment_start(s, lo, hi) <= hi,
        segment_start(s, lo, hi) > lo ==> s[segment_start(s, lo, hi) - 1] == SEPARATOR,
        forall|k: int| segment_start(s, lo, hi) <= k < hi ==> s[k] != SEPARATOR,
    decreases hi - lo,
{
    if hi > lo && s[hi - 1] != SEPARATOR {
        lemma_segment_start_bounds(s, lo, hi - 1);
    }
}

/// Copies the characters of `s` into a vector.
pub(crate) fn chars_of(s: &str) -> (v: Vec<char>)
    ensures
        v@ == s@,
{
    let mut v: Vec<char> = Vec::new();
    for c in it: s.chars()
        invariant
            v@ == it.seq().take(it.index() as int),
            it.seq() == s@,
    {
        v.push(c);
    }
    v
}

/// Finds the end of the segment that starts at `i`.
pub(crate) fn find_segment_end(s: &Vec<char>, i: usize) -> (j: usize)
    requires
        i <= s.len(),
    ensures
        j == segment_end(s@, i as int),
        i <= j <= s.len(),
{
    let mut j: usize = i;
    while j < s.len() && s[j] != SEPARATOR
        invariant
            i <= j <= s.len(),
            segment_end(s@, i as int) == segment_end(s@, j as int),
        decreases s.len() - j,
    {
        j = j + 1;
    }
    j
}

/// Finds the start of the segment that ends at `hi`, within `s[lo..hi]`.
fn find_segment_start(s: &Vec<char>, lo: usize, hi: usize) -> (k: usize)
    requires
        lo <= hi <= s.len(),
    ensures
        k == segment_start(s@, lo as int, hi as int),
        lo <= k <= hi,
{
    let mut k: usize = hi;
    while k > lo && s[k - 1] != SEPARATOR
        invariant
            lo <= k <= hi <= s.len(),
            segment_start(s@, lo as int, hi as int) == segment_start(s@, lo as int, k as int),
        decreases k - lo,
    {
        k = k - 1;
    }
    k
}

/// Whether `s[i..j]` is a step.
pub(crate) fn step_at(s: &Vec<char>, i: usize, j: usize) -> (b: bool)
    requires
        i <= j <= s.len(),
    ensures
        b == is_step(s@.subrange(i as int, j as int)),
{
    if j == i {
        false
    } else if j - i == 1 && s[i] == '.' {
        false
    } else {
        true
    }
}

/// Whether `s[i..j]` names the directory above.
fn parent_ref_at(s: &Vec<char>, i: usize, j: usize) -> (b: bool)
    requires
        i <= j <= s.len(),
    ensures
        b == (s@.subrange(i as int, j as int) == parent_ref()),
{
    if j - i == 2 && s[i] == '.' && s[i + 1] == '.' {
        assert(s@.subrange(i as int, j as int) =~= parent_ref());
        true
    } else {
        assert(s@.subrange(i as int, j as int) != parent_ref()) by {
            assert(parent_ref().len() == 2 && parent_ref()[0] == '.' && parent_ref()[1] == '.');
        }
        false
    }
}

/// Whether a step of `s` from the segment at `i` on names the directory
/// above.
fn parent_ref_from(s: &Vec<char>, start: usize) -> (found: bool)
    requires
        start <= s.len(),
    ensures
        found == steps_from(s@, start as int).contains(parent_ref()),
{
    let mut i: usize = start;
    while i < s.len()
        invariant
            i <= s.len(),
            steps_from(s@, start as int).contains(parent_ref()) == steps_from(
                s@,
                i as int,
            ).contains(parent_ref()),
        decreases s.len() - i,
    {
        let j = find_segment_end(s, i);
        let ghost seg = s@.subrange(i as int, j as int);
        let ghost rest = steps_from(s@, j + 1);
        if parent_ref_at(s, i, j) {
            proof {
                assert((seq![seg] + rest)[0] == seg);
            }
            return true;
        }
        proof {
            if is_step(seg) {
                let all = seq![seg] + rest;
                assert(all.contains(parent_ref()) == rest.contains(parent_ref())) by {
                    if rest.contains(parent_ref()) {
                        let k = choose|k: int| 0 <= k < rest.len() && rest[k] == parent_ref();
                        assert(all[k + 1] == parent_ref());
                    }
                }
            }
        }
        if j == s.len() {
            return false;
        }
        i = j + 1;
    }
    false
}

/// Index of the first step at or after the segment that starts at `i`, or
/// the length of `s` if no step follows.
pub open spec fn skip_trivial(s: Seq<char>, i: int) -> int
    decreases s.len() + 1 - i,
    via skip_trivial_terminates
{
    if i < 0 || i >= s.len() {
        s.len() as int
    } else {
        let j = segment_end(s, i);
        if is_step(s.subrange(i, j)) {
            i
        } else {
            skip_trivial(s, j + 1)
        }
    }
}

#[via_fn]
proof fn skip_trivial_terminates(s: Seq<char>, i: int) {
    if 0 <= i < s.len() {
        lemma_segment_end_bounds(s, i);
    }
}

/// End of `s[lo..hi]` once the segments at its end that are no steps have
/// been dropped, each with the separator before it.
pub open spec fn trim_end(s: Seq<char>, lo: int, hi: int) -> int
    decreases hi - lo,
    via trim_end_terminates
{
    if hi <= lo || hi > s.len() || lo < 0 {
        lo
    } else {
        let k = segment_start(s, lo, hi);
        if is_step(s.subrange(k, hi)) {
            hi
        } else if k > lo {
            trim_end(s, lo, k - 1)
        } else {
            lo
        }
    }
}

#[via_fn]
proof fn trim_end_terminates(s: Seq<char>, lo: int, hi: int) {
    if 0 <= lo < hi <= s.len() {
        lemma_segment_start_bounds(s, lo, hi);
    }
}

/// Where the relative part of a rooted path starts: at the first step after
/// the root.
pub open spec fn relative_start(path: Seq<char>) -> int {
    if has_root(path) {
        skip_trivial(path, 1)
    } else {
        0
    }
}

/// Where the relative part of a rooted path ends: after its last step.
pub open spec fn relative_end(path: Seq<char>) -> int {
    if has_root(path) {
        trim_end(path, relative_start(path), path.len() as int)
    } else {
        path.len() as int
    }
}

/// The path without its root. A rooted path loses the root, whatever
/// stands between the root and the first step, and whatever follows the
/// last step; any other path is left as it is.
pub open spec fn relative_part(path: Seq<char>) -> Seq<char> {
    path.subrange(relative_start(path), relative_end(path))
}

/// `path` appended to `base`. A rooted `path` replaces `base`; otherwise a
/// separator is put between the two unless `base` is empty or ends in one.
pub open spec fn joined(base: Seq<char>, path: Seq<char>) -> Seq<char> {
    if has_root(path) {
        path
    } else if base.len() > 0 && base.last() != SEPARATOR {
        base + seq![SEPARATOR] + path
    } else {
        base + path
    }
}

/// `path` made relative and placed under `parent`.
pub open spec fn sanitized(parent: Seq<char>, path: Seq<char>) -> Seq<char> {
    joined(parent, relative_part(path))
}

/// Why a path was refused.
#[derive(Clone, Copy, Debug, PartialEq, Eq, Structural)]
pub enum PathError {
    /// A step of the path names the directory above.
    ParentReference,
}

/// Finds the first step at or after the segment that starts at `start`.
fn find_first_step(s: &Vec<char>, start: usize) -> (a: usize)
    requires
        start <= s.len(),
    ensures
        a == skip_trivial(s@, start as int),
        start <= a <= s.len(),
{
    let mut i: usize = start;
    while i < s.len()
        invariant
            start <= i <= s.len(),
            skip_trivial(s@, start as int) == skip_trivial(s@, i as int),
        decreases s.len() - i,
    {
        let j = find_segment_end(s, i);
        if step_at(s, i, j) {
            return i;
        }
        if j == s.len() {
            assert(skip_trivial(s@, j + 1) == s.len());
            return j;
        }
        i = j + 1;
    }
    i
}

/// Finds the end of `s[lo..hi]` without the segments at its end that are no
/// steps.
fn find_trimmed_end(s: &Vec<char>, lo: usize, hi: usize) -> (e: usize)
    requires
        lo <= hi <= s.len(),
    ensures
        e == trim_end(s@, lo as int, hi as int),
        lo <= e <= hi,
{
    let mut h: usize = hi;
    while h > lo
        invariant
            lo <= h <= hi <= s.len(),
            trim_end(s@, lo as int, hi as int) == trim_end(s@, lo as int, h as int),
        decreases h - lo,
    {
        let k = find_segment_start(s, lo, h);
        if step_at(s, k, h) {
            return h;
        }
        if k == lo {
            return lo;
        }
        h = k - 1;
    }
    h
}

/// Appends `path` to `base` as a path: a rooted `path` replaces `base`, and
/// a separator is added where `base` needs one.
pub fn join(base: &str, path: &str) -> (r: String)
    ensures
        r@ == joined(base@, path@),
{
    let n = path.unicode_len();
    if n > 0 && path.get_char(0) == SEPARATOR {
        return path.to_owned();
    }
    let m = base.unicode_len();
    let mut r = base.to_owned();
    if m > 0 && base.get_char(m - 1) != SEPARATOR {
        proof {
            reveal_strlit("/");
        }
        r.append("/");
    }
    r.append(path);
    r
}

/// Makes `path` relative and places it under `parent`.
///
/// A path with a step that names the directory above is refused. A rooted
/// path loses its root and is read from `parent` on; any other path is
/// appended to `parent` as it is.
pub fn as_relative_path(parent: &str, path: &str) -> (r: Result<String, PathError>)
    ensures
        match r {
            Ok(link) => !has_parent_ref(path@) && link@ == sanitized(parent@, path@),
            Err(e) => has_parent_ref(path@) && e == PathError::ParentReference,
        },
{
    let chars = chars_of(path);
    if parent_ref_from(&chars, 0) {
        return Err(PathError::ParentReference);
    }
    let n = chars.len();
    if n > 0 && chars[0] == SEPARATOR {
        let a = find_first_step(&chars, 1);
        let b = find_trimmed_end(&chars, a, n);
        Ok(join(parent, path.substring_char(a, b)))
    } else {
        Ok(join(parent, path))
    }
}

/// Where the segments of a path start that can be taken off its end:
/// after the root, or after a single dot at its start.
pub open spec fn body_start(s: Seq<char>) -> int {
    if has_root(s) || leads_with_dot(s) {
        1
    } else {
        0
    }
}

/// The end of the last step of the path, or `body_start` if it has none.
pub open spec fn last_step_end(s: Seq<char>) -> int {
    trim_end(s, body_start(s), s.len() as int)
}

/// The start of the last step of the path, if it has one.
pub open spec fn last_step_start(s: Seq<char>) -> int {
    segment_start(s, body_start(s), last_step_end(s))
}

/// The path without its last step: what is left once the last step, the
/// separator before it and whatever led nowhere before that have been taken
/// off. A path without steps has such a part only if it is a single dot,
/// alone or before separators and dots; then the part is empty.
pub open spec fn parent_part(s: Seq<char>) -> Option<Seq<char>> {
    let lo = body_start(s);
    if last_step_end(s) > lo {
        let k = last_step_start(s);
        let cut = if k > lo {
            k - 1
        } else {
            lo
        };
        Some(s.subrange(0, trim_end(s, lo, cut)))
    } else if leads_with_dot(s) {
        Some(Seq::empty())
    } else {
        None
    }
}

/// The last step of the path, unless the path has no step or its last step
/// names the directory above.
pub open spec fn name_part(s: Seq<char>) -> Option<Seq<char>> {
    if last_step_end(s) > body_start(s) && s.subrange(last_step_start(s), last_step_end(s))
        != parent_ref() {
        Some(s.subrange(last_step_start(s), last_step_end(s)))
    } else {
        None
    }
}

/// Finds where the segments start that can be taken off the end.
fn find_body_start(s: &Vec<char>) -> (lo: usize)
    ensures
        lo == body_start(s@),
        lo <= s.len(),
{
    let n = s.len();
    if n > 0 && (s[0] == SEPARATOR || (s[0] == '.' && (n == 1 || s[1] == SEPARATOR))) {
        1
    } else {
        0
    }
}

/// The directory that holds what the path names: the path without its last
/// step.
pub fn parent_of(path: &str) -> (r: Option<String>)
    ensures
        match r {
            Some(parent) => parent_part(path@) == Some(parent@),
            None => parent_part(path@) is None,
        },
{
    let chars = chars_of(path);
    let lo = find_body_start(&chars);
    let hi = find_trimmed_end(&chars, lo, chars.len());
    if hi > lo {
        let k = find_segment_start(&chars, lo, hi);
        let cut = if k > lo {
            k - 1
        } else {
            lo
        };
        let end = find_trimmed_end(&chars, lo, cut);
        Some(path.substring_char(0, end).to_owned())
    } else if lo == 1 && chars[0] == '.' {
        let empty = String::new();
        Some(empty)
    } else {
        None
    }
}

/// The name under which the path is entered in its directory: its last
/// step.
pub fn file_name(path: &str) -> (r: Option<String>)
    ensures
        match r {
            Some(name) => name_part(path@) == Some(name@),
            None => name_part(path@) is None,
        },
{
    let chars = chars_of(path);
    let lo = find_body_start(&chars);
    let hi = find_trimmed_end(&chars, lo, chars.len());
    if hi > lo {
        let k = find_segment_start(&chars, lo, hi);
        if parent_ref_at(&chars, k, hi) {
            None
        } else {
            Some(path.substring_char(k, hi).to_owned())
        }
    } else {
        None
    }
}

} // verus!
