use vstd::prelude::*;

use crate::glob::{
    all_stars, class_at, class_close, class_hit, glob_from, glob_spec, lemma_class_close_bounds,
};
use crate::glob_result::GlobResult;

verus! {

/// No position of `p` holds a character with a special meaning.
pub open spec fn is_plain(p: Seq<char>) -> bool {
    forall|k: int|
        0 <= k < p.len() ==> p[k] != '?' && p[k] != '*' && p[k] != '[' && p[k] != '\\'
}

proof fn lemma_plain_from(p: Seq<char>, t: Seq<char>, i: int, j: int)
    requires
        is_plain(p),
        0 <= i <= p.len(),
        0 <= j <= t.len(),
    ensures
        glob_from(p, t, i, j) == GlobResult::of_bool(
            p.subrange(i, p.len() as int) == t.subrange(j, t.len() as int),
        ),
    decreases p.len() - i,
{
    let ps = p.subrange(i, p.len() as int);
    let ts = t.subrange(j, t.len() as int);
    if i >= p.len() || j >= t.len() {
        if i < p.len() {
            assert(p[i] != '*');
            assert(!all_stars(p, i));
            assert(ps.len() != ts.len());
        } else if j < t.len() {
            assert(ps.len() != ts.len());
        } else {
            assert forall|k: int| 0 <= k < ps.len() implies ps[k] == ts[k] by {
                if k > 0 {
                    assert(ps[k] == ps.drop_first()[k - 1]);
                    assert(ts[k] == ts.drop_first()[k - 1]);
                }
            }
            assert(ps =~= ts);
        }
    } else {
        lemma_plain_from(p, t, i + 1, j + 1);
        assert(ps[0] == p[i] && ts[0] == t[j]);
        assert(ps.drop_first() =~= p.subrange(i + 1, p.len() as int));
        assert(ts.drop_first() =~= t.subrange(j + 1, t.len() as int));
        if p[i] == t[j] && p.subrange(i + 1, p.len() as int) == t.subrange(j + 1, t.len() as int) {
            assert forall|k: int| 0 <= k < ps.len() implies ps[k] == ts[k] by {
                if k > 0 {
                    assert(ps[k] == ps.drop_first()[k - 1]);
                    assert(ts[k] == ts.drop_first()[k - 1]);
                }
            }
            assert(ps =~= ts);
        }
    }
}

/// A pattern without wildcard, class or escape matches exactly the text that
/// equals it, code point for code point, and nothing else.
pub proof fn law_plain_pattern(p: Seq<char>, t: Seq<char>)
    requires
        is_plain(p),
    ensures
        glob_spec(p, t) == GlobResult::of_bool(p == t),
{
    lemma_plain_from(p, t, 0, 0);
    assert(p.subrange(0, p.len() as int) =~= p);
    assert(t.subrange(0, t.len() as int) =~= t);
}

/// A final `*` matches whatever is left of the text.
proof fn lemma_final_star(p: Seq<char>, t: Seq<char>, j: int)
    requires
        p.len() > 0,
        p.last() == '*',
        0 <= j <= t.len(),
    ensures
        glob_from(p, t, p.len() - 1, j) == GlobResult::Matched,
    decreases t.len() - j,
{
    assert(p[p.len() - 1] == '*');
    if j < t.len() {
        lemma_final_star(p, t, j + 1);
        assert(glob_from(p, t, p.len() as int, j) == GlobResult::Unmatched);
    } else {
        assert(all_stars(p, p.len() - 1));
    }
}

/// The lone pattern `*` matches every text, the empty one included.
pub proof fn law_star_matches_all(t: Seq<char>)
    ensures
        glob_spec(seq!['*'], t) == GlobResult::Matched,
{
    lemma_final_star(seq!['*'], t, 0);
}

/// The lone pattern `?` matches exactly the texts of one code point.
pub proof fn law_question_mark_one_char(t: Seq<char>)
    ensures
        glob_spec(seq!['?'], t) == GlobResult::of_bool(t.len() == 1),
{
    let p = seq!['?'];
    assert(p[0] == '?');
    if t.len() == 0 {
        assert(!all_stars(p, 0));
    } else {
        assert(glob_from(p, t, 0, 0) == glob_from(p, t, 1, 1));
        assert(all_stars(p, 1));
    }
}

/// A class that closes inside `p` reads the same once more characters follow.
proof fn lemma_class_extend(p: Seq<char>, q: Seq<char>, i: int, prev: char, c: char)
    requires
        p.len() <= q.len(),
        p =~= q.subrange(0, p.len() as int),
        class_close(p, i) is Some,
    ensures
        class_close(q, i) == class_close(p, i),
        class_hit(q, i, prev, c) == class_hit(p, i, prev, c),
    decreases p.len() - i,
{
    assert(p[i] == q[i]);
    if p[i] == '-' {
        assert(p[i + 1] == q[i + 1]);
        if p[i + 1] != ']' {
            lemma_class_extend(p, q, i + 2, p[i + 1], c);
        }
    } else if p[i] != ']' {
        lemma_class_extend(p, q, i + 1, p[i], c);
    }
}

/// A trailing `*` keeps every match, and never turns a mismatch into a
/// syntax error.
proof fn lemma_trailing_star_from(p: Seq<char>, t: Seq<char>, i: int, j: int)
    requires
        0 <= i,
        0 <= j <= t.len(),
    ensures
        glob_from(p, t, i, j) == GlobResult::Matched ==> glob_from(p.push('*'), t, i, j)
            == GlobResult::Matched,
        glob_from(p, t, i, j) == GlobResult::Unmatched ==> glob_from(p.push('*'), t, i, j)
            != GlobResult::SyntaxError,
    decreases p.len() - i + t.len() - j,
{
    let q = p.push('*');
    assert(p =~= q.subrange(0, p.len() as int));
    if i >= p.len() || j >= t.len() {
        if j >= t.len() {
            if all_stars(p, i) {
                assert(all_stars(q, i));
            }
        } else if i == p.len() {
            lemma_final_star(q, t, j);
        }
    } else {
        assert(p[i] == q[i]);
        if p[i] == '?' {
            lemma_trailing_star_from(p, t, i + 1, j + 1);
        } else if p[i] == '*' {
            lemma_trailing_star_from(p, t, i + 1, j);
            if glob_from(q, t, i + 1, j) is Unmatched {
                lemma_trailing_star_from(p, t, i, j + 1);
            }
        } else if p[i] == '[' {
            let negate = i + 1 < p.len() && p[i + 1] == '!';
            let first = if negate {
                i + 2
            } else {
                i + 1
            };
            if first < p.len() && class_close(p, first + 1) is Some {
                assert(q[i + 1] == p[i + 1] && q[first] == p[first]);
                lemma_class_extend(p, q, first + 1, p[first], t[j]);
                lemma_class_close_bounds(p, first + 1);
                assert(class_at(q, i, t[j]) == class_at(p, i, t[j]));
                if let Some((hit, next)) = class_at(p, i, t[j]) {
                    if hit && i < next <= p.len() {
                        lemma_trailing_star_from(p, t, next, j + 1);
                    }
                }
            }
        } else if p[i] == '\\' {
            if i + 1 < p.len() {
                assert(p[i + 1] == q[i + 1]);
                lemma_trailing_star_from(p, t, i + 2, j + 1);
            }
        } else {
            lemma_trailing_star_from(p, t, i + 1, j + 1);
        }
    }
}

/// Appending `*` to a pattern keeps every text that it matched.
pub proof fn law_trailing_star(p: Seq<char>, t: Seq<char>)
    requires
        glob_spec(p, t) == GlobResult::Matched,
    ensures
        glob_spec(p.push('*'), t) == GlobResult::Matched,
{
    lemma_trailing_star_from(p, t, 0, 0);
}

/// Class scanning does not depend on what stands before the scanned part.
proof fn lemma_class_shift(pre: Seq<char>, q: Seq<char>, k: int, prev: char, c: char)
    requires
        0 <= k,
    ensures
        class_close(pre + q, k + pre.len()) == match class_close(q, k) {
            None => None,
            Some(e) => Some(e + pre.len()),
        },
        class_hit(pre + q, k + pre.len(), prev, c) == class_hit(q, k, prev, c),
    decreases q.len() - k,
{
    let s = pre + q;
    let n = pre.len() as int;
    if k < q.len() {
        assert(s[k + n] == q[k]);
        if k + 1 < q.len() {
            assert(s[k + 1 + n] == q[k + 1]);
        }
        if q[k] == '-' {
            if k + 1 < q.len() && q[k + 1] != ']' {
                lemma_class_shift(pre, q, k + 2, q[k + 1], c);
            }
        } else if q[k] != ']' {
            lemma_class_shift(pre, q, k + 1, q[k], c);
        }
    }
}

/// Matching does not depend on the part of the pattern already left behind.
proof fn lemma_glob_shift(pre: Seq<char>, q: Seq<char>, t: Seq<char>, i: int, j: int)
    requires
        0 <= i,
        0 <= j <= t.len(),
    ensures
        glob_from(pre + q, t, i + pre.len(), j) == glob_from(q, t, i, j),
    decreases q.len() - i + t.len() - j,
{
    let s = pre + q;
    let n = pre.len() as int;
    if i >= q.len() || j >= t.len() {
        assert(all_stars(s, i + n) == all_stars(q, i)) by {
            if all_stars(q, i) {
                assert forall|k: int| i + n <= k < s.len() implies s[k] == '*' by {
                    assert(s[k] == q[k - n]);
                }
            }
            if all_stars(s, i + n) {
                assert forall|k: int| i <= k < q.len() implies q[k] == '*' by {
                    assert(s[k + n] == q[k]);
                }
            }
        }
    } else {
        assert(s[i + n] == q[i]);
        if i + 1 < q.len() {
            assert(s[i + 1 + n] == q[i + 1]);
        }
        if q[i] == '?' {
            lemma_glob_shift(pre, q, t, i + 1, j + 1);
        } else if q[i] == '*' {
            lemma_glob_shift(pre, q, t, i + 1, j);
            lemma_glob_shift(pre, q, t, i, j + 1);
        } else if q[i] == '[' {
            let negate = i + 1 < q.len() && q[i + 1] == '!';
            let first = if negate {
                i + 2
            } else {
                i + 1
            };
            if first < q.len() {
                assert(s[first + n] == q[first]);
                lemma_class_shift(pre, q, first + 1, q[first], t[j]);
                lemma_class_close_bounds(q, first + 1);
                if let Some((hit, next)) = class_at(q, i, t[j]) {
                    assert(class_at(s, i + n, t[j]) == Some((hit, next + n)));
                    if hit {
                        lemma_glob_shift(pre, q, t, next, j + 1);
                    }
                }
            }
        } else if q[i] == '\\' {
            if i + 1 < q.len() {
                lemma_glob_shift(pre, q, t, i + 2, j + 1);
            }
        } else {
            lemma_glob_shift(pre, q, t, i + 1, j + 1);
        }
    }
}

/// A syntax error is never hidden by backtracking: where the rest of a pattern
/// is malformed against a text, a `*` in front of it does not turn the
/// outcome into a match or a mismatch.
pub proof fn law_syntax_error_wins(q: Seq<char>, t: Seq<char>)
    requires
        glob_spec(q, t) == GlobResult::SyntaxError,
    ensures
        glob_spec(seq!['*'] + q, t) == GlobResult::SyntaxError,
{
    let s = seq!['*'] + q;
    lemma_glob_shift(seq!['*'], q, t, 0, 0);
    assert(s[0] == '*');
    assert(glob_from(s, t, 1, 0) == GlobResult::SyntaxError);
}

} // verus!
