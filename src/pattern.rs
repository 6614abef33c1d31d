//! SQL `LIKE` patterns: `%` matches any run of characters, `_` matches one
//! character, and a backslash makes the character after it match only itself.
use vstd::prelude::*;

verus! {

/// Whether `s` from position `j` on matches pattern `p` from position `i` on.
pub open spec fn like_from(p: Seq<char>, i: int, s: Seq<char>, j: int) -> bool
    decreases p.len() - i + s.len() - j,
{
    if i < 0 || j < 0 || i > p.len() || j > s.len() {
        false
    } else if i == p.len() {
        j == s.len()
    } else if p[i] == '%' {
        like_from(p, i + 1, s, j) || (j < s.len() && like_from(p, i, s, j + 1))
    } else if j == s.len() {
        false
    } else if p[i] == '_' {
        like_from(p, i + 1, s, j + 1)
    } else if p[i] == '\\' {
        i + 1 < p.len() && s[j] == p[i + 1] && like_from(p, i + 2, s, j + 1)
    } else {
        s[j] == p[i] && like_from(p, i + 1, s, j + 1)
    }
}

/// Whether `s` matches the `LIKE` pattern `p`.
pub open spec fn like(p: Seq<char>, s: Seq<char>) -> bool {
    like_from(p, 0, s, 0)
}

/// Whether no escape of `p` from position `i` on is left without a character to escape.
pub open spec fn escapes_closed_from(p: Seq<char>, i: int) -> bool
    decreases p.len() - i,
{
    if i < 0 || i >= p.len() {
        true
    } else if p[i] == '\\' {
        i + 1 < p.len() && escapes_closed_from(p, i + 2)
    } else {
        escapes_closed_from(p, i + 1)
    }
}

/// Whether `p` is a pattern that a store accepts: it does not end in a lone escape.
pub open spec fn well_formed(p: Seq<char>) -> bool {
    escapes_closed_from(p, 0)
}

/// Whether `p` holds none of the characters that a pattern gives a meaning to.
pub open spec fn is_plain(p: Seq<char>) -> bool {
    forall|i: int| 0 <= i < p.len() ==> #[trigger] p[i] != '%' && p[i] != '_' && p[i] != '\\'
}

proof fn lemma_percent_tail(q: Seq<char>, s: Seq<char>, j: int)
    requires
        q.len() > 0,
        q.last() == '%',
        0 <= j <= s.len(),
    ensures
        like_from(q, q.len() - 1, s, j),
    decreases s.len() - j,
{
    let n = q.len() - 1;
    assert(q[n] == '%');
    assert(like_from(q, n + 1, s, j) == (j == s.len()));
    if j < s.len() {
        lemma_percent_tail(q, s, j + 1);
    }
}

proof fn lemma_plain_prefix_from(p: Seq<char>, s: Seq<char>, i: int, j: int)
    requires
        is_plain(p),
        0 <= i <= p.len(),
        0 <= j <= s.len(),
    ensures
        like_from(p.push('%'), i, s, j) <==> (j + (p.len() - i) <= s.len() && forall|k: int|
            0 <= k < p.len() - i ==> s[j + k] == #[trigger] p[i + k]),
    decreases p.len() - i,
{
    let q = p.push('%');
    if i == p.len() {
        lemma_percent_tail(q, s, j);
    } else {
        assert(q[i] == p[i]);
        if j < s.len() {
            lemma_plain_prefix_from(p, s, i + 1, j + 1);
            if like_from(q, i, s, j) {
                assert forall|k: int| 0 <= k < p.len() - i implies s[j + k] == #[trigger] p[i + k] by {
                    if k > 0 {
                        assert(s[(j + 1) + (k - 1)] == p[(i + 1) + (k - 1)]);
                    }
                }
            }
            if j + (p.len() - i) <= s.len() && forall|k: int|
                0 <= k < p.len() - i ==> s[j + k] == #[trigger] p[i + k] {
                assert(s[j + 0] == p[i + 0]);
                assert forall|k: int| 0 <= k < p.len() - (i + 1) implies s[(j + 1) + k]
                    == #[trigger] p[(i + 1) + k] by {
                    assert(s[j + (k + 1)] == p[i + (k + 1)]);
                }
            }
        }
    }
}

/// For a partial text `p` without `%`, `_` or `\\`, the pattern `p%` matches exactly
/// the texts that start with `p`.
pub proof fn lemma_plain_prefix(p: Seq<char>, s: Seq<char>)
    requires
        is_plain(p),
    ensures
        like(p + "%"@, s) <==> (p.len() <= s.len() && s.subrange(0, p.len() as int) == p),
{
    reveal_strlit("%");
    assert(p + "%"@ =~= p.push('%'));
    lemma_plain_prefix_from(p, s, 0, 0);
    if p.len() <= s.len() {
        if s.subrange(0, p.len() as int) == p {
            assert forall|k: int| 0 <= k < p.len() - 0 implies s[0 + k] == #[trigger] p[0 + k] by {
                assert(s.subrange(0, p.len() as int)[k] == s[k]);
            }
        }
        if forall|k: int| 0 <= k < p.len() - 0 ==> s[0 + k] == #[trigger] p[0 + k] {
            assert forall|k: int| 0 <= k < p.len() implies #[trigger] s.subrange(0, p.len() as int)[k]
                == p[k] by {
                assert(s[0 + k] == p[0 + k]);
            }
            assert(s.subrange(0, p.len() as int) =~= p);
        }
    }
}

/// The characters of `s`.
fn chars_of(s: &str) -> (r: Vec<char>)
    ensures
        r@ == s@,
{
    let n = s.unicode_len();
    let mut out: Vec<char> = Vec::new();
    let mut i: usize = 0;
    while i < n
        invariant
            n == s@.len(),
            i <= n,
            out@ == s@.subrange(0, i as int),
        decreases n - i,
    {
        out.push(s.get_char(i));
        i = i + 1;
        assert(out@ =~= s@.subrange(0, i as int));
    }
    assert(out@ =~= s@);
    out
}

fn blank_row(n: usize) -> (r: Vec<bool>)
    ensures
        r@.len() == n + 1,
        forall|k: int| 0 <= k <= n ==> !r@[k],
{
    let mut r: Vec<bool> = Vec::new();
    let mut k: usize = 0;
    while k < n
        invariant
            k <= n,
            r@.len() == k,
            forall|t: int| 0 <= t < k ==> !r@[t],
        decreases n - k,
    {
        r.push(false);
        k = k + 1;
    }
    r.push(false);
    r
}

/// Whether `p` is a pattern that a store accepts.
pub fn is_well_formed(p: &str) -> (r: bool)
    ensures
        r == well_formed(p@),
{
    let pc = chars_of(p);
    let m = pc.len();
    let mut i: usize = 0;
    while i < m
        invariant
            m == p@.len(),
            pc@ == p@,
            i <= m,
            escapes_closed_from(p@, 0) == escapes_closed_from(p@, i as int),
        decreases m - i,
    {
        if pc[i] == '\\' {
            if i + 1 >= m {
                return false;
            }
            i = i + 2;
        } else {
            i = i + 1;
        }
    }
    true
}

/// Whether `s` matches the `LIKE` pattern `p`.
pub fn like_match(p: &str, s: &str) -> (r: bool)
    ensures
        r == like(p@, s@),
{
    let pc = chars_of(p);
    let sc = chars_of(s);
    let m = pc.len();
    let n = sc.len();
    let mut next1 = blank_row(n);
    let width = next1.len();
    next1.set(n, true);
    assert forall|j: int| 0 <= j <= n implies next1@[j] == like_from(p@, m as int, s@, j) by {}
    let mut next2 = blank_row(n);
    let mut i: usize = m;
    while i > 0
        invariant
            i <= m == p@.len(),
            n == s@.len(),
            width == n + 1,
            pc@ == p@,
            sc@ == s@,
            next1@.len() == n + 1,
            next2@.len() == n + 1,
            forall|j: int| 0 <= j <= n ==> next1@[j] == like_from(p@, i as int, s@, j),
            i + 1 <= m ==> forall|j: int|
                0 <= j <= n ==> next2@[j] == like_from(p@, i + 1, s@, j),
        decreases i,
    {
        i = i - 1;
        let c = pc[i];
        let mut cur = blank_row(n);
        let mut j: usize = width;
        while j > 0
            invariant
                j <= n + 1,
                i < m == p@.len(),
                n == s@.len(),
                width == n + 1,
                pc@ == p@,
                sc@ == s@,
                c == p@[i as int],
                cur@.len() == n + 1,
                next1@.len() == n + 1,
                next2@.len() == n + 1,
                forall|k: int| 0 <= k <= n ==> next1@[k] == like_from(p@, i + 1, s@, k),
                i + 2 <= m ==> forall|k: int|
                    0 <= k <= n ==> next2@[k] == like_from(p@, i + 2, s@, k),
                forall|k: int| j <= k <= n ==> cur@[k] == like_from(p@, i as int, s@, k),
            decreases j,
        {
            j = j - 1;
            let v = if c == '%' {
                next1[j] || (j < n && cur[j + 1])
            } else if j == n {
                false
            } else if c == '_' {
                next1[j + 1]
            } else if c == '\\' {
                i + 1 < m && sc[j] == pc[i + 1] && next2[j + 1]
            } else {
                sc[j] == c && next1[j + 1]
            };
            assert(v == like_from(p@, i as int, s@, j as int));
            cur.set(j, v);
        }
        next2 = next1;
        next1 = cur;
    }
    next1[0]
}

} // verus!
