use vstd::prelude::*;
use vstd::string::StrSliceExecFns;

verus! {

/// Whether `s[j..]` matches the SQL `LIKE` pattern `p[i..]`: `%` matches any
/// run of characters, `_` matches exactly one, a backslash makes the
/// character after it literal, and every other character matches itself.
/// A backslash at the very end of the pattern stands for itself.
pub open spec fn like_from(p: Seq<char>, s: Seq<char>, i: int, j: int) -> bool
    decreases (p.len() - i) + (s.len() - j),
{
    if i < 0 || j < 0 || j > s.len() {
        false
    } else if i >= p.len() {
        j == s.len()
    } else if p[i] == '%' {
        like_from(p, s, i + 1, j) || (j < s.len() && like_from(p, s, i, j + 1))
    } else if p[i] == '_' {
        j < s.len() && like_from(p, s, i + 1, j + 1)
    } else if p[i] == '\\' && i + 1 < p.len() {
        j < s.len() && s[j] == p[i + 1] && like_from(p, s, i + 2, j + 1)
    } else {
        j < s.len() && s[j] == p[i] && like_from(p, s, i + 1, j + 1)
    }
}

/// Whether the whole of `s` matches the `LIKE` pattern `p`.
pub open spec fn like(p: Seq<char>, s: Seq<char>) -> bool {
    like_from(p, s, 0, 0)
}

/// The characters of `s`, one per element.
pub fn chars_of(s: &str) -> (r: Vec<char>)
    ensures
        r@ == s@,
{
    let n = s.unicode_len();
    let mut r: Vec<char> = Vec::new();
    let mut i: usize = 0;
    while i < n
        invariant
            n == s@.len(),
            0 <= i <= n,
            r@ == s@.subrange(0, i as int),
        decreases n - i,
    {
        let c = s.get_char(i);
        r.push(c);
        i = i + 1;
        assert(r@ =~= s@.subrange(0, i as int));
    }
    assert(r@ =~= s@);
    r
}

/// One row of the matching table: entry `j` of `row` says whether `s[j..]`
/// matches `p[i..]`, for `j < s.len()`, and `end` says whether the empty rest
/// of `s` does.
pub open spec fn row_of(p: Seq<char>, s: Seq<char>, i: int, row: Seq<bool>, end: bool) -> bool {
    &&& row.len() == s.len()
    &&& end == like_from(p, s, i, s.len() as int)
    &&& forall|j: int| 0 <= j < s.len() ==> #[trigger] row[j] == like_from(p, s, i, j)
}

fn entry(row: &Vec<bool>, end: bool, k: usize) -> (r: bool)
    requires
        k <= row@.len(),
    ensures
        r == if k == row@.len() {
            end
        } else {
            row@[k as int]
        },
{
    if k == row.len() {
        end
    } else {
        row[k]
    }
}

/// Whether `text` matches the `LIKE` pattern `pattern`.
pub fn like_match(pattern: &Vec<char>, text: &Vec<char>) -> (r: bool)
    ensures
        r == like(pattern@, text@),
{
    let p = pattern;
    let s = text;
    let m = p.len();
    let n = s.len();
    let ghost ps = p@;
    let ghost ss = s@;
    // The row for the end of the pattern: only the empty rest matches.
    let mut next1: Vec<bool> = vec![false; n];
    let mut end1: bool = true;
    // The row two ahead is read only where it exists.
    let mut next2: Vec<bool> = vec![false; n];
    let mut end2: bool = false;
    let mut i: usize = m;
    while i > 0
        invariant
            n == ss.len(),
            m == ps.len(),
            ps == p@,
            ss == s@,
            0 <= i <= m,
            row_of(ps, ss, i as int, next1@, end1),
            next2@.len() == n,
            i + 1 <= m ==> row_of(ps, ss, i as int + 1, next2@, end2),
        decreases i,
    {
        i = i - 1;
        let c = p[i];
        let mut cur: Vec<bool> = vec![false; n];
        // At the end of the text only `%` can still match, and only if the
        // rest of the pattern matches the empty text too.
        let end_cur: bool = c == '%' && end1;
        let mut jj: usize = n;
        while jj > 0
            invariant
                n == ss.len(),
                m == ps.len(),
                ps == p@,
                ss == s@,
                0 <= i < m,
                c == ps[i as int],
                row_of(ps, ss, i as int + 1, next1@, end1),
                next2@.len() == n,
                i + 2 <= m ==> row_of(ps, ss, i as int + 2, next2@, end2),
                cur@.len() == n,
                0 <= jj <= n,
                end_cur == like_from(ps, ss, i as int, n as int),
                forall|k: int| jj <= k < n ==> #[trigger] cur@[k] == like_from(ps, ss, i as int, k),
            decreases jj,
        {
            jj = jj - 1;
            let k = jj;
            let v: bool = if c == '%' {
                entry(&next1, end1, k) || entry(&cur, end_cur, k + 1)
            } else if c == '_' {
                entry(&next1, end1, k + 1)
            } else if c == '\\' && i + 1 < m {
                s[k] == p[i + 1] && entry(&next2, end2, k + 1)
            } else {
                s[k] == c && entry(&next1, end1, k + 1)
            };
            proof {
                assert(v == like_from(ps, ss, i as int, k as int));
            }
            cur.set(k, v);
        }
        next2 = next1;
        end2 = end1;
        next1 = cur;
        end1 = end_cur;
    }
    entry(&next1, end1, 0)
}

} // verus!
