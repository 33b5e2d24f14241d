//! What the steps of a path are once the path has been cut, trimmed or
//! joined to another.

use crate::compare::{begins_with, lies_below, same_path};
use crate::path::{
    body_start, has_parent_ref, has_root, is_step, joined, last_step_end, last_step_start,
    leads_with_dot, lemma_segment_end_bounds, lemma_segment_end_is, lemma_segment_start_bounds,
    name_part, parent_part, parent_ref, relative_end, relative_part, relative_start, sanitized,
    segment_end, segment_start, skip_trivial, steps, steps_from, trim_end, SEPARATOR,
};
use vstd::prelude::*;

verus! {

/// A segment of a suffix ends where it ends in the whole path.
pub proof fn lemma_segment_end_suffix(s: Seq<char>, a: int, k: int)
    requires
        0 <= a <= s.len(),
        0 <= k <= s.len() - a,
    ensures
        segment_end(s.subrange(a, s.len() as int), k) + a == segment_end(s, a + k),
    decreases s.len() - a - k,
{
    let t = s.subrange(a, s.len() as int);
    if k < t.len() && t[k] != SEPARATOR {
        lemma_segment_end_suffix(s, a, k + 1);
    }
}

/// The steps of a suffix are the steps of the whole path from where the
/// suffix starts.
pub proof fn lemma_steps_from_suffix(s: Seq<char>, a: int, k: int)
    requires
        0 <= a <= s.len(),
        0 <= k,
    ensures
        steps_from(s.subrange(a, s.len() as int), k) == steps_from(s, a + k),
    decreases s.len() + 1 - a - k,
{
    let t = s.subrange(a, s.len() as int);
    if k < t.len() {
        lemma_segment_end_suffix(s, a, k);
        lemma_segment_end_bounds(t, k);
        let j = segment_end(t, k);
        lemma_steps_from_suffix(s, a, j + 1);
        assert(t.subrange(k, j) =~= s.subrange(a + k, a + j));
    }
}

/// Up to a separator, a segment ends where it ends in the part of the path
/// before that separator.
pub proof fn lemma_segment_end_prefix(s: Seq<char>, b: int, i: int)
    requires
        0 <= i <= b <= s.len(),
        b < s.len() ==> s[b] == SEPARATOR,
    ensures
        segment_end(s.subrange(0, b), i) == segment_end(s, i),
        i <= segment_end(s, i) <= b,
    decreases b - i,
{
    if i < b && s[i] != SEPARATOR {
        lemma_segment_end_prefix(s, b, i + 1);
    }
}

/// A separator cuts the steps of a path in two: those of the part before
/// it, then those of the part after it.
pub proof fn lemma_steps_from_prefix(s: Seq<char>, b: int, i: int)
    requires
        0 <= i <= b <= s.len(),
        b < s.len() ==> s[b] == SEPARATOR,
    ensures
        steps_from(s, i) == steps_from(s.subrange(0, b), i) + steps_from(s, b + 1),
    decreases b - i,
{
    let t = s.subrange(0, b);
    if i < b {
        lemma_segment_end_prefix(s, b, i);
        let j = segment_end(s, i);
        assert(t.subrange(i, j) =~= s.subrange(i, j));
        if j < b {
            lemma_steps_from_prefix(s, b, j + 1);
            assert(steps_from(s, i) =~= steps_from(t, i) + steps_from(s, b + 1));
        }
    }
}

/// Skipping to the first step loses no step, and what is found is a step
/// unless the path has ended.
pub proof fn lemma_skip_trivial(s: Seq<char>, i: int)
    requires
        0 <= i <= s.len(),
    ensures
        i <= skip_trivial(s, i) <= s.len(),
        steps_from(s, skip_trivial(s, i)) == steps_from(s, i),
        skip_trivial(s, i) < s.len() ==> s[skip_trivial(s, i)] != SEPARATOR,
        skip_trivial(s, i) < s.len() ==> is_step(
            s.subrange(skip_trivial(s, i), segment_end(s, skip_trivial(s, i))),
        ),
    decreases s.len() + 1 - i,
{
    if i < s.len() {
        lemma_segment_end_bounds(s, i);
        let j = segment_end(s, i);
        if !is_step(s.subrange(i, j)) {
            if j < s.len() {
                lemma_skip_trivial(s, j + 1);
            } else {
                assert(skip_trivial(s, j + 1) == s.len());
                assert(steps_from(s, j + 1) =~= steps_from(s, s.len() as int));
            }
        }
    }
}

/// Trimming the end of a path loses no step, and what is left ends in a
/// step unless nothing is left.
pub proof fn lemma_trim_end(s: Seq<char>, lo: int, hi: int)
    requires
        0 <= lo <= hi <= s.len(),
    ensures
        lo <= trim_end(s, lo, hi) <= hi,
        steps_from(s.subrange(0, trim_end(s, lo, hi)), lo) == steps_from(s.subrange(0, hi), lo),
        trim_end(s, lo, hi) > lo ==> is_step(
            s.subrange(segment_start(s, lo, trim_end(s, lo, hi)), trim_end(s, lo, hi)),
        ),
    decreases hi - lo,
{
    let u = s.subrange(0, hi);
    if hi > lo {
        lemma_segment_start_bounds(s, lo, hi);
        let k = segment_start(s, lo, hi);
        if !is_step(s.subrange(k, hi)) {
            // the last segment of `u` is no step: it adds nothing to the
            // steps of what stands before it
            lemma_segment_end_is(u, k, hi);
            assert(steps_from(u, hi + 1) =~= Seq::<Seq<char>>::empty());
            if k > lo {
                lemma_steps_from_prefix(u, k - 1, lo);
                assert(u.subrange(0, k - 1) =~= s.subrange(0, k - 1));
                lemma_trim_end(s, lo, k - 1);
            }
        }
    }
}

/// The relative part of a path has the steps of the path and no root.
pub proof fn lemma_relative_part(path: Seq<char>)
    ensures
        0 <= relative_start(path) <= relative_end(path) <= path.len(),
        steps(relative_part(path)) == steps(path),
        !has_root(relative_part(path)),
{
    let n = path.len() as int;
    if has_root(path) {
        lemma_skip_trivial(path, 1);
        let a = relative_start(path);
        lemma_trim_end(path, a, n);
        let e = relative_end(path);
        let u = path.subrange(0, e);
        assert(path.subrange(0, n) =~= path);
        lemma_steps_from_suffix(u, a, 0);
        assert(u.subrange(a, e) =~= relative_part(path));
    } else {
        assert(path.subrange(0, n) =~= path);
    }
}

/// Joining a path without a root to a base appends its steps to those of
/// the base.
pub proof fn lemma_joined_steps(base: Seq<char>, path: Seq<char>)
    requires
        !has_root(path),
    ensures
        steps(joined(base, path)) == steps(base) + steps(path),
        base.len() > 0 ==> has_root(joined(base, path)) == has_root(base),
{
    let s = joined(base, path);
    let n = s.len() as int;
    if base.len() == 0 {
        // the path stands alone
    } else if base.last() == SEPARATOR {
        let b = base.len() - 1;
        lemma_steps_from_prefix(s, b, 0);
        lemma_steps_from_prefix(base, b, 0);
        assert(s.subrange(0, b) =~= base.subrange(0, b));
        lemma_steps_from_suffix(s, b + 1, 0);
        assert(s.subrange(b + 1, n) =~= path);
    } else {
        let b = base.len() as int;
        lemma_steps_from_prefix(s, b, 0);
        assert(s.subrange(0, b) =~= base);
        lemma_steps_from_suffix(s, b + 1, 0);
        assert(s.subrange(b + 1, n) =~= path);
    }
}

/// A sanitized path stays under its parent: its steps are those of the
/// parent followed by those of the path, none of which names the directory
/// above, and it starts where the parent starts.
pub proof fn lemma_sanitized_stays_under_parent(parent: Seq<char>, path: Seq<char>)
    requires
        !has_parent_ref(path),
    ensures
        steps(sanitized(parent, path)) == steps(parent) + steps(path),
        forall|k: int|
            steps(parent).len() <= k < steps(sanitized(parent, path)).len() ==> steps(
                sanitized(parent, path),
            )[k] != parent_ref(),
        parent.len() > 0 ==> has_root(sanitized(parent, path)) == has_root(parent),
        parent.len() == 0 ==> !has_root(sanitized(parent, path)),
{
    lemma_relative_part(path);
    lemma_joined_steps(parent, relative_part(path));
}

/// The root and a single dot at the start of a path are no steps.
pub proof fn lemma_body_steps(s: Seq<char>)
    ensures
        0 <= body_start(s) <= s.len(),
        steps(s) == steps_from(s, body_start(s)),
{
    if !has_root(s) && leads_with_dot(s) {
        lemma_segment_end_is(s, 0, 1);
        if s.len() == 1 {
            assert(steps_from(s, 2) =~= steps_from(s, 1));
        }
    }
}

/// The last step of a path is its last segment once what leads nowhere has
/// been trimmed from its end, and the steps before it are the steps of the
/// path cut before that segment.
pub proof fn lemma_last_step(s: Seq<char>)
    ensures
        body_start(s) <= last_step_end(s) <= s.len(),
        (last_step_end(s) > body_start(s)) == (steps(s).len() > 0),
        last_step_end(s) > body_start(s) ==> {
            &&& body_start(s) <= last_step_start(s) < last_step_end(s)
            &&& steps(s).last() == s.subrange(last_step_start(s), last_step_end(s))
            &&& steps(s).drop_last() == steps_from(
                s.subrange(
                    0,
                    if last_step_start(s) > body_start(s) {
                        last_step_start(s) - 1
                    } else {
                        body_start(s)
                    },
                ),
                body_start(s),
            )
        },
{
    let n = s.len() as int;
    lemma_body_steps(s);
    let lo = body_start(s);
    lemma_trim_end(s, lo, n);
    let hi = last_step_end(s);
    let u = s.subrange(0, hi);
    assert(s.subrange(0, n) =~= s);
    if hi > lo {
        lemma_segment_start_bounds(s, lo, hi);
        let k = last_step_start(s);
        lemma_segment_end_is(u, k, hi);
        assert(steps_from(u, hi + 1) =~= Seq::<Seq<char>>::empty());
        if k > lo {
            lemma_steps_from_prefix(u, k - 1, lo);
            assert(u.subrange(0, k - 1) =~= s.subrange(0, k - 1));
        }
    }
}

/// The parent of a path with steps has all its steps but the last, and
/// starts where the path starts. A path without steps has no parent, or an
/// empty one.
pub proof fn lemma_parent_part(s: Seq<char>)
    ensures
        steps(s).len() > 0 ==> parent_part(s) is Some && steps(parent_part(s)->0)
            == steps(s).drop_last() && has_root(parent_part(s)->0) == has_root(s),
        steps(s).len() == 0 ==> parent_part(s) is None || parent_part(s)->0.len() == 0,
{
    lemma_last_step(s);
    let lo = body_start(s);
    let hi = last_step_end(s);
    if hi > lo {
        let k = last_step_start(s);
        let cut = if k > lo {
            k - 1
        } else {
            lo
        };
        lemma_trim_end(s, lo, cut);
        lemma_body_steps(s.subrange(0, trim_end(s, lo, cut)));
    }
}

/// The name of a path is its last step, unless that names the directory
/// above.
pub proof fn lemma_name_part(s: Seq<char>)
    ensures
        name_part(s) == if steps(s).len() > 0 && steps(s).last() != parent_ref() {
            Some(steps(s).last())
        } else {
            None
        },
{
    lemma_last_step(s);
}

/// A sanitized path begins with its parent, and lies below it as soon as
/// the path has a step.
pub proof fn lemma_sanitized_begins_with_parent(parent: Seq<char>, path: Seq<char>)
    requires
        !has_parent_ref(path),
    ensures
        begins_with(sanitized(parent, path), parent),
        steps(path).len() > 0 ==> lies_below(sanitized(parent, path), parent),
        steps(path).len() == 0 && parent.len() > 0 ==> same_path(sanitized(parent, path), parent),
{
    lemma_sanitized_stays_under_parent(parent, path);
}

/// A root before a path changes nothing of where the path leads: under a
/// parent that is not empty the sanitized path is the same path with it
/// and without it. Under the empty parent the steps are the same, and the
/// paths are the same unless the path leads with a single dot, which a
/// rooted path loses.
pub proof fn lemma_leading_root_changes_nothing(parent: Seq<char>, path: Seq<char>)
    requires
        !has_parent_ref(path),
    ensures
        !has_parent_ref(seq![SEPARATOR] + path),
        steps(sanitized(parent, seq![SEPARATOR] + path)) == steps(sanitized(parent, path)),
        parent.len() > 0 || !leads_with_dot(path) ==> same_path(
            sanitized(parent, seq![SEPARATOR] + path),
            sanitized(parent, path),
        ),
{
    let rooted = seq![SEPARATOR] + path;
    // the root is an empty segment before the path
    lemma_steps_from_suffix(rooted, 1, 0);
    assert(rooted.subrange(1, rooted.len() as int) =~= path);
    assert(segment_end(rooted, 0) == 0);
    assert(steps(rooted) == steps(path));
    lemma_sanitized_stays_under_parent(parent, path);
    lemma_sanitized_stays_under_parent(parent, rooted);
    lemma_relative_part(rooted);
    lemma_relative_part(path);
    let with_root = sanitized(parent, rooted);
    let without = sanitized(parent, path);
    if parent.len() > 0 {
        assert(with_root[0] == parent[0]);
        assert(without[0] == parent[0]);
        if parent.len() > 1 {
            assert(with_root[1] == parent[1]);
            assert(without[1] == parent[1]);
        } else if parent[0] != SEPARATOR {
            assert(with_root[1] == SEPARATOR);
            assert(without[1] == SEPARATOR);
        }
    } else {
        assert(with_root =~= relative_part(rooted));
        assert(without =~= relative_part(path));
        // what is left of a rooted path begins with a step, or is empty
        lemma_skip_trivial(rooted, 1);
        if !leads_with_dot(path) {
            lemma_relative_start_is_plain(rooted);
            lemma_relative_start_is_plain(path);
        }
    }
}

/// The relative part of a path leads with a single dot only if the path
/// does.
pub proof fn lemma_relative_start_is_plain(path: Seq<char>)
    ensures
        leads_with_dot(relative_part(path)) ==> leads_with_dot(path),
{
    if has_root(path) {
        lemma_relative_part(path);
        lemma_skip_trivial(path, 1);
        let a = relative_start(path);
        let e = relative_end(path);
        let n = path.len() as int;
        let part = relative_part(path);
        if part.len() > 0 {
            // the part begins with a step, and ends with one
            lemma_segment_end_bounds(path, a);
            lemma_trim_end(path, a, n);
            lemma_segment_start_bounds(path, a, e);
            assert(part[0] == path[a]);
            if part[0] == '.' {
                if part.len() == 1 {
                    assert(segment_start(path, a, e) == a);
                    assert(path.subrange(a, e) =~= part);
                } else {
                    // a step that begins with a dot goes on after it
                    let j = segment_end(path, a);
                    assert(path.subrange(a, j)[0] == path[a]);
                    assert(j > a + 1);
                    assert(part[1] == path[a + 1]);
                }
            }
        }
    } else {
        lemma_relative_part(path);
        assert(relative_part(path) =~= path);
    }
}

} // verus!
