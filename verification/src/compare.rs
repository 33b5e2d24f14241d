//! Comparing paths by where they lead, not by how they are written.
//!
//! Two paths are the same when they begin in the same way and have the same
//! steps: separators in a row, and single dots after the first segment,
//! make no difference.

use crate::path::{
    chars_of, find_segment_end, has_root, leads_with_dot, step_at, steps, steps_from,
};
use vstd::prelude::*;

verus! {

/// How a path begins.
#[derive(Clone, Copy, Debug, PartialEq, Eq, Structural)]
pub enum Lead {
    /// With its first step, or not at all.
    Plain,
    /// At the root.
    Root,
    /// With a single dot: in the directory itself.
    Dot,
}

/// How the path begins.
pub open spec fn lead(s: Seq<char>) -> Lead {
    if has_root(s) {
        Lead::Root
    } else if leads_with_dot(s) {
        Lead::Dot
    } else {
        Lead::Plain
    }
}

/// Whether two paths lead to the same place from the same start.
pub open spec fn same_path(a: Seq<char>, b: Seq<char>) -> bool {
    lead(a) == lead(b) && steps(a) == steps(b)
}

/// Whether `path` begins with all of `base`: with the same lead and the
/// same steps, which others may follow. Every path begins with the empty
/// path.
pub open spec fn begins_with(path: Seq<char>, base: Seq<char>) -> bool {
    &&& steps(base).is_prefix_of(steps(path))
    &&& lead(base) == lead(path) || (lead(base) == Lead::Plain && steps(base).len() == 0)
}

/// Whether `path` lies below `base`: it begins with `base` and is not the
/// same path.
pub open spec fn lies_below(path: Seq<char>, base: Seq<char>) -> bool {
    begins_with(path, base) && !same_path(path, base)
}

/// The texts that `bounds` cut out of `s`, in order.
pub open spec fn cut_out(s: Seq<char>, bounds: Seq<(usize, usize)>) -> Seq<Seq<char>> {
    Seq::new(bounds.len(), |k: int| s.subrange(bounds[k].0 as int, bounds[k].1 as int))
}

/// Finds how the path begins.
fn find_lead(s: &Vec<char>) -> (l: Lead)
    ensures
        l == lead(s@),
{
    let n = s.len();
    if n > 0 && s[0] == '/' {
        Lead::Root
    } else if n > 0 && s[0] == '.' && (n == 1 || s[1] == '/') {
        Lead::Dot
    } else {
        Lead::Plain
    }
}

/// Finds where each step of the path starts and ends.
fn step_bounds(s: &Vec<char>) -> (bounds: Vec<(usize, usize)>)
    ensures
        cut_out(s@, bounds@) == steps(s@),
        forall|k: int|
            0 <= k < bounds@.len() ==> (#[trigger] bounds@[k]).0 <= bounds@[k].1 <= s@.len(),
{
    let mut bounds: Vec<(usize, usize)> = Vec::new();
    let mut i: usize = 0;
    while i < s.len()
        invariant
            i <= s.len(),
            cut_out(s@, bounds@) + steps_from(s@, i as int) == steps(s@),
            forall|k: int|
                0 <= k < bounds@.len() ==> (#[trigger] bounds@[k]).0 <= bounds@[k].1 <= s@.len(),
        decreases s.len() - i,
    {
        let j = find_segment_end(s, i);
        if step_at(s, i, j) {
            bounds.push((i, j));
        }
        assert(cut_out(s@, bounds@) + steps_from(s@, j + 1) =~= steps(s@));
        if j == s.len() {
            return bounds;
        }
        i = j + 1;
    }
    bounds
}

/// Whether `a[a_lo..a_hi]` and `b[b_lo..b_hi]` are the same text.
fn same_cut(a: &Vec<char>, a_lo: usize, a_hi: usize, b: &Vec<char>, b_lo: usize, b_hi: usize) -> (same:
    bool)
    requires
        a_lo <= a_hi <= a.len(),
        b_lo <= b_hi <= b.len(),
    ensures
        same == (a@.subrange(a_lo as int, a_hi as int) == b@.subrange(b_lo as int, b_hi as int)),
{
    let ghost x = a@.subrange(a_lo as int, a_hi as int);
    let ghost y = b@.subrange(b_lo as int, b_hi as int);
    if a_hi - a_lo != b_hi - b_lo {
        assert(x.len() != y.len());
        return false;
    }
    let n = a_hi - a_lo;
    let mut k: usize = 0;
    while k < n
        invariant
            k <= n,
            n == a_hi - a_lo,
            n == b_hi - b_lo,
            a_hi <= a.len(),
            b_hi <= b.len(),
            x == a@.subrange(a_lo as int, a_hi as int),
            y == b@.subrange(b_lo as int, b_hi as int),
            forall|m: int| 0 <= m < k ==> x[m] == y[m],
        decreases n - k,
    {
        if a[a_lo + k] != b[b_lo + k] {
            assert(x[k as int] != y[k as int]);
            return false;
        }
        k = k + 1;
    }
    assert(x =~= y);
    true
}

/// Whether the first `count` steps of the two paths are the same.
fn same_steps(
    a: &Vec<char>,
    a_bounds: &Vec<(usize, usize)>,
    b: &Vec<char>,
    b_bounds: &Vec<(usize, usize)>,
    count: usize,
) -> (same: bool)
    requires
        count <= a_bounds@.len(),
        count <= b_bounds@.len(),
        forall|k: int|
            0 <= k < a_bounds@.len() ==> (#[trigger] a_bounds@[k]).0 <= a_bounds@[k].1 <= a@.len(),
        forall|k: int|
            0 <= k < b_bounds@.len() ==> (#[trigger] b_bounds@[k]).0 <= b_bounds@[k].1 <= b@.len(),
    ensures
        same == (cut_out(a@, a_bounds@).take(count as int) == cut_out(b@, b_bounds@).take(
            count as int,
        )),
{
    let ghost x = cut_out(a@, a_bounds@).take(count as int);
    let ghost y = cut_out(b@, b_bounds@).take(count as int);
    let mut k: usize = 0;
    while k < count
        invariant
            k <= count,
            count <= a_bounds@.len(),
            count <= b_bounds@.len(),
            x == cut_out(a@, a_bounds@).take(count as int),
            y == cut_out(b@, b_bounds@).take(count as int),
            forall|m: int|
                0 <= m < a_bounds@.len() ==> (#[trigger] a_bounds@[m]).0 <= a_bounds@[m].1
                    <= a@.len(),
            forall|m: int|
                0 <= m < b_bounds@.len() ==> (#[trigger] b_bounds@[m]).0 <= b_bounds@[m].1
                    <= b@.len(),
            forall|m: int| 0 <= m < k ==> x[m] == y[m],
        decreases count - k,
    {
        let (a_lo, a_hi) = a_bounds[k];
        let (b_lo, b_hi) = b_bounds[k];
        if !same_cut(a, a_lo, a_hi, b, b_lo, b_hi) {
            assert(x[k as int] != y[k as int]);
            return false;
        }
        k = k + 1;
    }
    assert(x =~= y);
    true
}

/// Whether two paths are the same path.
pub fn paths_equal(a: &str, b: &str) -> (same: bool)
    ensures
        same == same_path(a@, b@),
{
    let a_chars = chars_of(a);
    let b_chars = chars_of(b);
    if find_lead(&a_chars) != find_lead(&b_chars) {
        return false;
    }
    let a_bounds = step_bounds(&a_chars);
    let b_bounds = step_bounds(&b_chars);
    if a_bounds.len() != b_bounds.len() {
        assert(steps(a@).len() != steps(b@).len());
        return false;
    }
    let count = a_bounds.len();
    assert(steps(a@).take(count as int) =~= steps(a@));
    assert(steps(b@).take(count as int) =~= steps(b@));
    same_steps(&a_chars, &a_bounds, &b_chars, &b_bounds, count)
}

/// Whether `path` begins with all of `base`.
pub fn path_begins_with(path: &str, base: &str) -> (begins: bool)
    ensures
        begins == begins_with(path@, base@),
{
    let p_chars = chars_of(path);
    let b_chars = chars_of(base);
    let p_bounds = step_bounds(&p_chars);
    let b_bounds = step_bounds(&b_chars);
    let base_lead = find_lead(&b_chars);
    let leads_agree = base_lead == find_lead(&p_chars) || (base_lead == Lead::Plain
        && b_bounds.len() == 0);
    if !leads_agree {
        return false;
    }
    if b_bounds.len() > p_bounds.len() {
        return false;
    }
    let count = b_bounds.len();
    assert(steps(base@).take(count as int) =~= steps(base@));
    same_steps(&p_chars, &p_bounds, &b_chars, &b_bounds, count)
}

/// Whether `path` lies below `base`.
pub fn path_lies_below(path: &str, base: &str) -> (below: bool)
    ensures
        below == lies_below(path@, base@),
{
    path_begins_with(path, base) && !paths_equal(path, base)
}

} // verus!
