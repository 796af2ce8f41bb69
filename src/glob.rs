use vstd::prelude::*;

use crate::glob_result::GlobResult;

verus! {

/// Every pattern position from `i` on holds a `*`.
pub open spec fn all_stars(p: Seq<char>, i: int) -> bool {
    forall|k: int| i <= k < p.len() ==> p[k] == '*'
}

/// Where the member list of a class, scanned from `i`, is closed: the index of
/// the closing `]`, or `None` when the pattern ends first or a `-` is left
/// without a character to close its range.
pub open spec fn class_close(p: Seq<char>, i: int) -> Option<int>
    decreases p.len() - i,
{
    if i < 0 || i >= p.len() {
        None
    } else if p[i] == ']' {
        Some(i)
    } else if p[i] == '-' {
        if i + 1 >= p.len() {
            None
        } else if p[i + 1] == ']' {
            Some(i + 1)
        } else {
            class_close(p, i + 2)
        }
    } else {
        class_close(p, i + 1)
    }
}

/// Whether `c` belongs to the members scanned from `i`, where `prev` is the
/// member scanned just before (the low end of a range that starts at `i`).
pub open spec fn class_hit(p: Seq<char>, i: int, prev: char, c: char) -> bool
    decreases p.len() - i,
{
    if i < 0 || i >= p.len() || p[i] == ']' {
        false
    } else if p[i] == '-' {
        if i + 1 >= p.len() {
            false
        } else if p[i + 1] == ']' {
            c == '-'
        } else {
            (prev as u32 <= c as u32 && c as u32 <= p[i + 1] as u32) || class_hit(
                p,
                i + 2,
                p[i + 1],
                c,
            )
        }
    } else {
        p[i] == c || class_hit(p, i + 1, p[i], c)
    }
}

/// The class that opens with the `[` at `i`, read against the text character
/// `c`: `None` when it is malformed, else whether `c` is accepted (negation
/// applied) and the pattern position just past the closing `]`.
pub open spec fn class_at(p: Seq<char>, i: int, c: char) -> Option<(bool, int)> {
    let negate = i + 1 < p.len() && p[i + 1] == '!';
    let first = if negate {
        i + 2
    } else {
        i + 1
    };
    if first >= p.len() {
        None
    } else {
        match class_close(p, first + 1) {
            None => None,
            Some(close) => Some(
                ((p[first] == c || class_hit(p, first + 1, p[first], c)) != negate, close + 1),
            ),
        }
    }
}

/// The outcome of matching the pattern from position `i` against the text
/// from position `j`.
pub open spec fn glob_from(p: Seq<char>, t: Seq<char>, i: int, j: int) -> GlobResult
    decreases p.len() - i + t.len() - j,
{
    if i < 0 || j < 0 || i >= p.len() || j >= t.len() {
        // Text exhausted: only trailing stars may remain. Pattern exhausted
        // first: the rest of the text is unmatched.
        GlobResult::of_bool(j >= t.len() && all_stars(p, i))
    } else if p[i] == '?' {
        glob_from(p, t, i + 1, j + 1)
    } else if p[i] == '*' {
        let rest = glob_from(p, t, i + 1, j);
        if rest is Unmatched {
            glob_from(p, t, i, j + 1)
        } else {
            rest
        }
    } else if p[i] == '[' {
        match class_at(p, i, t[j]) {
            None => GlobResult::SyntaxError,
            // A class always closes past its `[` and inside the pattern; the
            // bound is spelled out so that the recursion visibly shrinks.
            Some((hit, next)) => if hit && i < next <= p.len() {
                glob_from(p, t, next, j + 1)
            } else {
                GlobResult::Unmatched
            },
        }
    } else if p[i] == '\\' {
        if i + 1 >= p.len() {
            GlobResult::SyntaxError
        } else if p[i + 1] == t[j] {
            glob_from(p, t, i + 2, j + 1)
        } else {
            GlobResult::Unmatched
        }
    } else if p[i] == t[j] {
        glob_from(p, t, i + 1, j + 1)
    } else {
        GlobResult::Unmatched
    }
}

/// The outcome of matching pattern `p` against text `t` as a whole.
pub open spec fn glob_spec(p: Seq<char>, t: Seq<char>) -> GlobResult {
    glob_from(p, t, 0, 0)
}

/// Where the member list scanned from `i` closes, it closes at or after `i`
/// and inside the pattern.
pub proof fn lemma_class_close_bounds(p: Seq<char>, i: int)
    ensures
        class_close(p, i) matches Some(e) ==> i <= e < p.len() && p[e] == ']',
    decreases p.len() - i,
{
    if 0 <= i < p.len() && p[i] != ']' {
        if p[i] == '-' {
            if i + 1 < p.len() && p[i + 1] != ']' {
                lemma_class_close_bounds(p, i + 2);
            }
        } else {
            lemma_class_close_bounds(p, i + 1);
        }
    }
}

/// The code points of `s`, in order.
fn code_points(s: &str) -> (r: Vec<char>)
    ensures
        r@ == s@,
{
    let mut out: Vec<char> = Vec::new();
    for c in it: s.chars()
        invariant
            it.seq() == s@,
            out@ == it.seq().take(it.index() as int),
    {
        out.push(c);
    }
    out
}

/// Reads the class that opens with the `[` at `open` against the text
/// character `c`.
fn scan_class(p: &Vec<char>, open: usize, c: char) -> (r: Option<(bool, usize)>)
    requires
        open < p.len(),
        p[open as int] == '[',
    ensures
        match r {
            None => class_at(p@, open as int, c) is None,
            Some((hit, next)) => class_at(p@, open as int, c) == Some((hit, next as int)) && open
                < next <= p.len(),
        },
{
    let len = p.len();
    let mut i: usize = open + 1;
    if i >= len {
        return None;
    }
    let mut negate: bool = false;
    if p[i] == '!' {
        negate = true;
        i = i + 1;
    }
    if i >= len {
        return None;
    }
    let ghost first = i as int;
    let mut hit: bool = p[i] == c;
    let mut prev: char = p[i];
    i = i + 1;
    while i < len && p[i] != ']'
        invariant
            0 <= first < i <= len,
            len == p.len(),
            negate == (open + 1 < len && p[open + 1] == '!'),
            first == if negate {
                open + 2
            } else {
                open + 1
            },
            class_close(p@, i as int) == class_close(p@, first + 1),
            (hit || class_hit(p@, i as int, prev, c)) == (p@[first] == c || class_hit(
                p@,
                first + 1,
                p@[first],
                c,
            )),
        decreases len - i,
    {
        if p[i] == '-' {
            let ghost dash = i as int;
            i = i + 1;
            if i >= len {
                assert(class_close(p@, dash) is None);
                return None;
            }
            if p[i] == ']' {
                hit = hit || c == '-';
            } else {
                hit = hit || (prev as u32 <= c as u32 && c as u32 <= p[i] as u32);
                prev = p[i];
                i = i + 1;
            }
        } else {
            hit = hit || p[i] == c;
            prev = p[i];
            i = i + 1;
        }
    }
    if i >= len {
        return None;
    }
    proof {
        lemma_class_close_bounds(p@, first + 1);
    }
    Some((hit != negate, i + 1))
}

/// Matches the pattern from `p_start` against the text from `t_start`.
fn inner_glob(p: &Vec<char>, t: &Vec<char>, p_start: usize, t_start: usize) -> (r: GlobResult)
    requires
        p_start <= p.len(),
        t_start <= t.len(),
    ensures
        r == glob_from(p@, t@, p_start as int, t_start as int),
    decreases p.len() - p_start + t.len() - t_start,
{
    let p_len = p.len();
    let t_len = t.len();
    let mut p_idx: usize = p_start;
    let mut t_idx: usize = t_start;
    while p_idx < p_len && t_idx < t_len
        invariant
            p_len == p.len(),
            t_len == t.len(),
            p_start <= p_idx <= p_len,
            t_start <= t_idx <= t_len,
            glob_from(p@, t@, p_idx as int, t_idx as int) == glob_from(
                p@,
                t@,
                p_start as int,
                t_start as int,
            ),
        decreases p_len - p_idx + t_len - t_idx,
    {
        let pc = p[p_idx];
        if pc == '?' {
            p_idx = p_idx + 1;
            t_idx = t_idx + 1;
        } else if pc == '*' {
            let res = inner_glob(p, t, p_idx + 1, t_idx);
            if res != GlobResult::Unmatched {
                return res;
            }
            t_idx = t_idx + 1;
        } else if pc == '[' {
            match scan_class(p, p_idx, t[t_idx]) {
                None => {
                    return GlobResult::SyntaxError;
                },
                Some((hit, next)) => {
                    if !hit {
                        return GlobResult::Unmatched;
                    }
                    p_idx = next;
                    t_idx = t_idx + 1;
                },
            }
        } else {
            if pc == '\\' {
                p_idx = p_idx + 1;
                if p_idx >= p_len {
                    return GlobResult::SyntaxError;
                }
            }
            if p[p_idx] == t[t_idx] {
                p_idx = p_idx + 1;
                t_idx = t_idx + 1;
            } else {
                return GlobResult::Unmatched;
            }
        }
    }
    if t_idx >= t_len {
        let ghost tail = p_idx as int;
        while p_idx < p_len && p[p_idx] == '*'
            invariant
                tail <= p_idx <= p_len,
                p_len == p.len(),
                forall|k: int| tail <= k < p_idx ==> p@[k] == '*',
            decreases p_len - p_idx,
        {
            p_idx = p_idx + 1;
        }
        return GlobResult::from(p_idx >= p_len);
    }
    GlobResult::Unmatched
}

/// Matches `pattern` against the whole of `text`, code point by code point.
pub fn glob(pattern: &str, text: &str) -> (r: GlobResult)
    ensures
        r == glob_spec(pattern@, text@),
{
    let p = code_points(pattern);
    let t = code_points(text);
    inner_glob(&p, &t, 0, 0)
}

} // verus!
