//! SQL text preprocessing.
//!
//! The analysis parser does not accept two constructs of the calling
//! convention: `LIMIT`/`OFFSET` clauses whose argument may be a positional
//! placeholder, and bare positional placeholders (`$1`, `$2`, ...) used as
//! expressions.  Before the text is handed to the parser, two rewrites are
//! applied, scanning left to right and taking the leftmost, longest match at
//! each position:
//!
//! 1. clause elision: every occurrence of `LIMIT` or `OFFSET`
//!    (case-insensitively), followed by whitespace and then an optionally
//!    `$`-prefixed digit run, is deleted;
//! 2. placeholder quoting: every `$` followed by a digit run is wrapped in
//!    single quotes, so it reads as a string literal.
//!
//! The rewritten text is used for analysis only; it is never executed and
//! never emitted.
//!
//! Both rewrites work on bytes, and their character classes are ASCII by
//! decision: a digit is `0`..`9` and whitespace is the six ASCII whitespace
//! bytes.  SQL keywords, placeholders and the numbers that may follow
//! `LIMIT`/`OFFSET` are ASCII; a non-ASCII space or digit is left alone and,
//! if it makes the text unparseable, surfaces as an analysis error.

use vstd::prelude::*;

verus! {

/// An ASCII decimal digit.
pub open spec fn is_digit(b: u8) -> bool {
    48 <= b && b <= 57
}

/// ASCII whitespace: space, tab, line feed, vertical tab, form feed,
/// carriage return.
pub open spec fn is_space(b: u8) -> bool {
    b == 32 || b == 9 || b == 10 || b == 11 || b == 12 || b == 13
}

/// ASCII lower-casing of a single byte.
pub open spec fn lower(b: u8) -> u8 {
    if 65 <= b && b <= 90 {
        (b + 32) as u8
    } else {
        b
    }
}

/// Length of the digit run starting at `i`.
pub open spec fn digit_run(s: Seq<u8>, i: int) -> int
    decreases s.len() - i,
{
    if 0 <= i && i < s.len() && is_digit(s[i]) {
        1 + digit_run(s, i + 1)
    } else {
        0
    }
}

/// Length of the whitespace run starting at `i`.
pub open spec fn space_run(s: Seq<u8>, i: int) -> int
    decreases s.len() - i,
{
    if 0 <= i && i < s.len() && is_space(s[i]) {
        1 + space_run(s, i + 1)
    } else {
        0
    }
}

/// The word `limit` stands at `i`, case-insensitively.
pub open spec fn limit_at(s: Seq<u8>, i: int) -> bool {
    &&& 0 <= i
    &&& i + 5 <= s.len()
    &&& lower(s[i]) == 108
    &&& lower(s[i + 1]) == 105
    &&& lower(s[i + 2]) == 109
    &&& lower(s[i + 3]) == 105
    &&& lower(s[i + 4]) == 116
}

/// The word `offset` stands at `i`, case-insensitively.
pub open spec fn offset_at(s: Seq<u8>, i: int) -> bool {
    &&& 0 <= i
    &&& i + 6 <= s.len()
    &&& lower(s[i]) == 111
    &&& lower(s[i + 1]) == 102
    &&& lower(s[i + 2]) == 102
    &&& lower(s[i + 3]) == 115
    &&& lower(s[i + 4]) == 101
    &&& lower(s[i + 5]) == 116
}

/// Length of the keyword standing at `i`: 5 for `limit`, 6 for `offset`,
/// 0 for neither.
pub open spec fn keyword_len_at(s: Seq<u8>, i: int) -> int {
    if limit_at(s, i) {
        5
    } else if offset_at(s, i) {
        6
    } else {
        0
    }
}

/// Length of the `LIMIT`/`OFFSET` clause starting at `i`, or 0 if none
/// starts there.  A clause is the keyword, at least one whitespace byte,
/// an optional `$`, and at least one digit; whitespace and digit runs are
/// maximal.
pub open spec fn clause_len_at(s: Seq<u8>, i: int) -> int {
    let k = keyword_len_at(s, i);
    if k == 0 {
        0
    } else {
        let w = space_run(s, i + k);
        if w == 0 {
            0
        } else {
            let p = i + k + w;
            if p < s.len() && s[p] == 36 {
                if digit_run(s, p + 1) > 0 {
                    k + w + 1 + digit_run(s, p + 1)
                } else {
                    0
                }
            } else {
                if digit_run(s, p) > 0 {
                    k + w + digit_run(s, p)
                } else {
                    0
                }
            }
        }
    }
}

pub proof fn lemma_digit_run_bounds(s: Seq<u8>, i: int)
    requires
        0 <= i <= s.len(),
    ensures
        0 <= digit_run(s, i),
        i + digit_run(s, i) <= s.len(),
    decreases s.len() - i,
{
    if i < s.len() && is_digit(s[i]) {
        lemma_digit_run_bounds(s, i + 1);
    }
}

pub proof fn lemma_space_run_bounds(s: Seq<u8>, i: int)
    requires
        0 <= i <= s.len(),
    ensures
        0 <= space_run(s, i),
        i + space_run(s, i) <= s.len(),
    decreases s.len() - i,
{
    if i < s.len() && is_space(s[i]) {
        lemma_space_run_bounds(s, i + 1);
    }
}

pub proof fn lemma_clause_len_bounds(s: Seq<u8>, i: int)
    requires
        0 <= i <= s.len(),
    ensures
        0 <= clause_len_at(s, i),
        i + clause_len_at(s, i) <= s.len(),
{
    let k = keyword_len_at(s, i);
    if k != 0 {
        lemma_space_run_bounds(s, i + k);
        let w = space_run(s, i + k);
        if w != 0 {
            let p = i + k + w;
            if p < s.len() && s[p] == 36 {
                lemma_digit_run_bounds(s, p + 1);
            } else {
                lemma_digit_run_bounds(s, p);
            }
        }
    }
}

/// The clause-elision rewrite, from position `i` on: clauses are dropped,
/// all other bytes are kept.
pub open spec fn elide_from(s: Seq<u8>, i: int) -> Seq<u8>
    decreases s.len() - i,
    via elide_from_dec
{
    if i < 0 || i >= s.len() {
        Seq::empty()
    } else {
        let m = clause_len_at(s, i);
        if m > 0 {
            elide_from(s, i + m)
        } else {
            seq![s[i]] + elide_from(s, i + 1)
        }
    }
}

#[via_fn]
proof fn elide_from_dec(s: Seq<u8>, i: int) {
    if 0 <= i && i < s.len() {
        lemma_clause_len_bounds(s, i);
    }
}

/// The placeholder-quoting rewrite, from position `i` on: every `$` followed
/// by a digit run is wrapped in single quotes, all other bytes are kept.
pub open spec fn quote_from(s: Seq<u8>, i: int) -> Seq<u8>
    decreases s.len() - i,
    via quote_from_dec
{
    if i < 0 || i >= s.len() {
        Seq::empty()
    } else if s[i] == 36 && digit_run(s, i + 1) > 0 {
        let d = digit_run(s, i + 1);
        seq![39u8] + s.subrange(i, i + 1 + d) + seq![39u8] + quote_from(s, i + 1 + d)
    } else {
        seq![s[i]] + quote_from(s, i + 1)
    }
}

#[via_fn]
proof fn quote_from_dec(s: Seq<u8>, i: int) {
    if 0 <= i && i < s.len() && s[i] == 36 {
        lemma_digit_run_bounds(s, i + 1);
    }
}

/// Transform 1: the text with every `LIMIT`/`OFFSET` clause elided.
pub open spec fn elided(s: Seq<u8>) -> Seq<u8> {
    elide_from(s, 0)
}

/// Transform 2: the text with every placeholder wrapped in single quotes.
pub open spec fn quoted(s: Seq<u8>) -> Seq<u8> {
    quote_from(s, 0)
}

/// The full preprocessing rewrite: clause elision, then placeholder quoting.
pub open spec fn preprocessed(s: Seq<u8>) -> Seq<u8> {
    quoted(elided(s))
}

fn lower_byte(b: u8) -> (r: u8)
    ensures
        r == lower(b),
{
    if 65 <= b && b <= 90 {
        b + 32
    } else {
        b
    }
}

fn is_digit_byte(b: u8) -> (r: bool)
    ensures
        r == is_digit(b),
{
    48 <= b && b <= 57
}

fn is_space_byte(b: u8) -> (r: bool)
    ensures
        r == is_space(b),
{
    b == 32 || b == 9 || b == 10 || b == 11 || b == 12 || b == 13
}

fn digit_count(s: &Vec<u8>, from: usize) -> (d: usize)
    requires
        from <= s@.len(),
    ensures
        d == digit_run(s@, from as int),
        from + d <= s@.len(),
{
    let mut j: usize = from;
    while j < s.len() && is_digit_byte(s[j])
        invariant
            from <= j <= s@.len(),
            digit_run(s@, from as int) == (j - from) + digit_run(s@, j as int),
        decreases s@.len() - j,
    {
        j = j + 1;
    }
    j - from
}

fn space_count(s: &Vec<u8>, from: usize) -> (w: usize)
    requires
        from <= s@.len(),
    ensures
        w == space_run(s@, from as int),
        from + w <= s@.len(),
{
    let mut j: usize = from;
    while j < s.len() && is_space_byte(s[j])
        invariant
            from <= j <= s@.len(),
            space_run(s@, from as int) == (j - from) + space_run(s@, j as int),
        decreases s@.len() - j,
    {
        j = j + 1;
    }
    j - from
}

fn keyword_len(s: &Vec<u8>, i: usize) -> (k: usize)
    requires
        i < s@.len(),
    ensures
        k == keyword_len_at(s@, i as int),
{
    if s.len() - i >= 5 && lower_byte(s[i]) == 108 && lower_byte(s[i + 1]) == 105
        && lower_byte(s[i + 2]) == 109 && lower_byte(s[i + 3]) == 105
        && lower_byte(s[i + 4]) == 116 {
        5
    } else if s.len() - i >= 6 && lower_byte(s[i]) == 111 && lower_byte(s[i + 1]) == 102
        && lower_byte(s[i + 2]) == 102 && lower_byte(s[i + 3]) == 115
        && lower_byte(s[i + 4]) == 101 && lower_byte(s[i + 5]) == 116 {
        6
    } else {
        0
    }
}

fn clause_len(s: &Vec<u8>, i: usize) -> (m: usize)
    requires
        i < s@.len(),
    ensures
        m == clause_len_at(s@, i as int),
        i + m <= s@.len(),
{
    proof {
        lemma_clause_len_bounds(s@, i as int);
    }
    let n = s.len();
    let k = keyword_len(s, i);
    if k == 0 {
        return 0;
    }
    proof {
        assert(i + k <= n);
    }
    let w = space_count(s, i + k);
    proof {
        assert(i + k + w <= n);
    }
    if w == 0 {
        return 0;
    }
    let p = i + k + w;
    if p < s.len() && s[p] == 36 {
        let d = digit_count(s, p + 1);
        if d > 0 {
            k + w + 1 + d
        } else {
            0
        }
    } else {
        let d = digit_count(s, p);
        if d > 0 {
            k + w + d
        } else {
            0
        }
    }
}

/// Delete every `LIMIT`/`OFFSET` clause from the text.
pub fn elide_limit_offset(s: &Vec<u8>) -> (r: Vec<u8>)
    ensures
        r@ == elided(s@),
{
    let mut out: Vec<u8> = Vec::new();
    let mut i: usize = 0;
    while i < s.len()
        invariant
            i <= s@.len(),
            elided(s@) == out@ + elide_from(s@, i as int),
        decreases s@.len() - i,
    {
        let m = clause_len(s, i);
        if m > 0 {
            i = i + m;
        } else {
            out.push(s[i]);
            proof {
                assert(out@ + elide_from(s@, i + 1 as int) =~= elided(s@));
            }
            i = i + 1;
        }
    }
    proof {
        assert(out@ + elide_from(s@, i as int) =~= out@);
    }
    out
}

/// Wrap every placeholder (`$` followed by digits) in single quotes.
pub fn quote_placeholders(s: &Vec<u8>) -> (r: Vec<u8>)
    ensures
        r@ == quoted(s@),
{
    let mut out: Vec<u8> = Vec::new();
    let mut i: usize = 0;
    while i < s.len()
        invariant
            i <= s@.len(),
            quoted(s@) == out@ + quote_from(s@, i as int),
        decreases s@.len() - i,
    {
        if s[i] == 36 {
            let d = digit_count(s, i + 1);
            if d > 0 {
                let ghost base = out@;
                out.push(39);
                let end = i + 1 + d;
                proof {
                    assert(out@ =~= base + seq![39u8] + s@.subrange(i as int, i as int));
                }
                let mut j: usize = i;
                while j < end
                    invariant
                        i <= j <= end,
                        end == i + 1 + d,
                        end <= s@.len(),
                        out@ == base + seq![39u8] + s@.subrange(i as int, j as int),
                    decreases end - j,
                {
                    out.push(s[j]);
                    proof {
                        assert(s@.subrange(i as int, j + 1 as int) =~= s@.subrange(
                            i as int,
                            j as int,
                        ) + seq![s@[j as int]]);
                    }
                    j = j + 1;
                }
                out.push(39);
                proof {
                    assert(out@ + quote_from(s@, (i + 1 + d) as int) =~= quoted(s@));
                }
                i = i + 1 + d;
            } else {
                out.push(s[i]);
                proof {
                    assert(out@ + quote_from(s@, i + 1 as int) =~= quoted(s@));
                }
                i = i + 1;
            }
        } else {
            out.push(s[i]);
            proof {
                assert(out@ + quote_from(s@, i + 1 as int) =~= quoted(s@));
            }
            i = i + 1;
        }
    }
    proof {
        assert(out@ + quote_from(s@, i as int) =~= out@);
    }
    out
}

proof fn lemma_digit_run_concat(a: Seq<u8>, c: Seq<u8>, j: int)
    requires
        0 <= j <= a.len(),
        c.len() == 0 || !is_digit(c[0]),
    ensures
        digit_run(a + c, j) == digit_run(a, j),
    decreases a.len() - j,
{
    if j < a.len() {
        assert((a + c)[j] == a[j]);
        if is_digit(a[j]) {
            lemma_digit_run_concat(a, c, j + 1);
        }
    } else {
        if c.len() > 0 {
            assert((a + c)[j] == c[0]);
        }
    }
}

proof fn lemma_space_run_concat(a: Seq<u8>, c: Seq<u8>, j: int)
    requires
        0 <= j <= a.len(),
        c.len() == 0 || !is_space(c[0]),
    ensures
        space_run(a + c, j) == space_run(a, j),
    decreases a.len() - j,
{
    if j < a.len() {
        assert((a + c)[j] == a[j]);
        if is_space(a[j]) {
            lemma_space_run_concat(a, c, j + 1);
        }
    } else {
        if c.len() > 0 {
            assert((a + c)[j] == c[0]);
        }
    }
}

proof fn lemma_digit_run_shift(a: Seq<u8>, c: Seq<u8>, j: int)
    requires
        0 <= j <= c.len(),
    ensures
        digit_run(a + c, a.len() + j) == digit_run(c, j),
    decreases c.len() - j,
{
    if j < c.len() {
        assert((a + c)[a.len() + j] == c[j]);
        if is_digit(c[j]) {
            lemma_digit_run_shift(a, c, j + 1);
        }
    }
}

proof fn lemma_space_run_shift(a: Seq<u8>, c: Seq<u8>, j: int)
    requires
        0 <= j <= c.len(),
    ensures
        space_run(a + c, a.len() + j) == space_run(c, j),
    decreases c.len() - j,
{
    if j < c.len() {
        assert((a + c)[a.len() + j] == c[j]);
        if is_space(c[j]) {
            lemma_space_run_shift(a, c, j + 1);
        }
    }
}

proof fn lemma_keyword_concat(a: Seq<u8>, c: Seq<u8>, i: int)
    requires
        0 <= i < a.len(),
        c.len() > 0,
        lower(c[0]) == 108 || lower(c[0]) == 111,
    ensures
        keyword_len_at(a + c, i) == keyword_len_at(a, i),
{
    let s = a + c;
    if i + 5 <= a.len() {
        assert(limit_at(s, i) == limit_at(a, i));
    } else {
        // a keyword cannot straddle the boundary: the byte at the boundary
        // is the first letter of the clause's own keyword, `l` or `o`, and
        // no later letter of `limit` or `offset` is such a letter
        if limit_at(s, i) {
            assert(s[a.len() as int] == c[0]);
            assert(false);
        }
        assert(!limit_at(a, i));
    }
    if i + 6 <= a.len() {
        assert(offset_at(s, i) == offset_at(a, i));
    } else {
        if offset_at(s, i) {
            assert(s[a.len() as int] == c[0]);
            assert(false);
        }
        assert(!offset_at(a, i));
    }
}

proof fn lemma_clause_concat(a: Seq<u8>, c: Seq<u8>, i: int)
    requires
        0 <= i < a.len(),
        c.len() > 0,
        lower(c[0]) == 108 || lower(c[0]) == 111,
    ensures
        clause_len_at(a + c, i) == clause_len_at(a, i),
{
    let s = a + c;
    lemma_keyword_concat(a, c, i);
    let k = keyword_len_at(a, i);
    if k != 0 {
        assert(!is_space(c[0]) && !is_digit(c[0]) && c[0] != 36);
        assert(i + k <= a.len());
        lemma_space_run_concat(a, c, i + k);
        let w = space_run(a, i + k);
        if w != 0 {
            lemma_space_run_bounds(a, i + k);
            let p = i + k + w;
            if p < a.len() {
                assert(s[p] == a[p]);
                if a[p] == 36 {
                    lemma_digit_run_concat(a, c, p + 1);
                } else {
                    lemma_digit_run_concat(a, c, p);
                }
            } else {
                assert(s[p] == c[0]);
                lemma_digit_run_concat(a, c, p);
            }
        }
    }
}

proof fn lemma_clause_at_boundary(a: Seq<u8>, c: Seq<u8>)
    requires
        clause_len_at(c, 0) == c.len(),
        c.len() > 0,
    ensures
        clause_len_at(a + c, a.len() as int) == c.len(),
{
    let s = a + c;
    let n = a.len() as int;
    let k = keyword_len_at(c, 0);
    assert(k != 0);
    if limit_at(c, 0) {
        assert(limit_at(s, n));
    } else {
        assert(offset_at(c, 0));
        assert(offset_at(s, n));
        assert(s[n] == c[0]);
        assert(!limit_at(s, n));
    }
    assert(keyword_len_at(s, n) == k);
    lemma_space_run_shift(a, c, k);
    let w = space_run(c, k);
    assert(w != 0);
    let p = k + w;
    lemma_space_run_bounds(c, k);
    if p < c.len() {
        assert(s[n + p] == c[p]);
    }
    if p < c.len() && c[p] == 36 {
        lemma_digit_run_shift(a, c, p + 1);
    } else {
        lemma_digit_run_shift(a, c, p);
    }
}

proof fn lemma_elide_from_concat(a: Seq<u8>, c: Seq<u8>, i: int)
    requires
        clause_len_at(c, 0) == c.len(),
        c.len() > 0,
        0 <= i <= a.len(),
    ensures
        elide_from(a + c, i) == elide_from(a, i),
    decreases a.len() - i,
{
    let s = a + c;
    assert(keyword_len_at(c, 0) != 0);
    assert(lower(c[0]) == 108 || lower(c[0]) == 111);
    if i == a.len() {
        lemma_clause_at_boundary(a, c);
        assert(elide_from(s, i) == elide_from(s, i + c.len()));
        assert(elide_from(s, i + c.len()) == Seq::<u8>::empty());
    } else {
        lemma_clause_concat(a, c, i);
        let m = clause_len_at(a, i);
        if m > 0 {
            lemma_clause_len_bounds(a, i);
            lemma_elide_from_concat(a, c, i + m);
        } else {
            assert(s[i] == a[i]);
            lemma_elide_from_concat(a, c, i + 1);
        }
    }
}

/// Clause elision removes a whole trailing `LIMIT`/`OFFSET` clause: the
/// text with the clause and the text without it are rewritten to the very
/// same thing, so nothing of the clause ever reaches the parser.
pub proof fn lemma_elide_trailing_clause(a: Seq<u8>, c: Seq<u8>)
    requires
        clause_len_at(c, 0) == c.len(),
        c.len() > 0,
    ensures
        elided(a + c) == elided(a),
{
    lemma_elide_from_concat(a, c, 0);
}

proof fn lemma_quote_from_shift(u: Seq<u8>, b: Seq<u8>, j: int)
    requires
        0 <= j <= b.len(),
    ensures
        quote_from(u + b, u.len() + j) == quote_from(b, j),
    decreases b.len() - j,
{
    let s = u + b;
    if j < b.len() {
        assert(s[u.len() + j] == b[j]);
        lemma_digit_run_shift(u, b, j + 1);
        if b[j] == 36 && digit_run(b, j + 1) > 0 {
            let d = digit_run(b, j + 1);
            lemma_digit_run_bounds(b, j + 1);
            assert(s.subrange(u.len() + j, u.len() + j + 1 + d) =~= b.subrange(j, j + 1 + d));
            lemma_quote_from_shift(u, b, j + 1 + d);
            assert(quote_from(s, u.len() + j) =~= quote_from(b, j));
        } else {
            lemma_quote_from_shift(u, b, j + 1);
            assert(quote_from(s, u.len() + j) =~= quote_from(b, j));
        }
    }
}

proof fn lemma_quote_from_mid(a: Seq<u8>, p: Seq<u8>, b: Seq<u8>, i: int)
    requires
        p.len() >= 2,
        p[0] == 36,
        digit_run(p, 1) == p.len() - 1,
        b.len() == 0 || !is_digit(b[0]),
        0 <= i <= a.len(),
    ensures
        quote_from(a + p + b, i) == quote_from(a, i) + seq![39u8] + p + seq![39u8] + quote_from(
            b,
            0,
        ),
    decreases a.len() - i,
{
    let u = a + p;
    let s = u + b;
    if i == a.len() {
        // the placeholder is matched exactly at the boundary: its digit run
        // ends where `b` begins
        assert(s[i] == p[0]);
        lemma_digit_run_concat(u, b, i + 1);
        lemma_digit_run_shift(a, p, 1);
        let d = digit_run(s, i + 1);
        assert(d == p.len() - 1);
        assert(s.subrange(i, i + 1 + d) =~= p);
        lemma_quote_from_shift(u, b, 0);
        assert(i + 1 + d == u.len());
        assert(quote_from(s, i) =~= quote_from(a, i) + seq![39u8] + p + seq![39u8] + quote_from(
            b,
            0,
        ));
    } else {
        assert(s[i] == a[i]);
        lemma_digit_run_concat(u, b, i + 1);
        lemma_digit_run_concat(a, p, i + 1);
        if a[i] == 36 && digit_run(a, i + 1) > 0 {
            let d = digit_run(a, i + 1);
            lemma_digit_run_bounds(a, i + 1);
            assert(s.subrange(i, i + 1 + d) =~= a.subrange(i, i + 1 + d));
            lemma_quote_from_mid(a, p, b, i + 1 + d);
            assert(quote_from(s, i) =~= quote_from(a, i) + seq![39u8] + p + seq![39u8]
                + quote_from(b, 0));
        } else {
            lemma_quote_from_mid(a, p, b, i + 1);
            assert(quote_from(s, i) =~= quote_from(a, i) + seq![39u8] + p + seq![39u8]
                + quote_from(b, 0));
        }
    }
}

/// Placeholder quoting wraps each placeholder (`$` followed by a maximal
/// digit run) in single quotes and rewrites the text around it exactly as
/// it would on its own.  What follows the placeholder must not begin with a
/// digit: a digit there would belong to the placeholder itself.
pub proof fn lemma_quote_placeholder(a: Seq<u8>, p: Seq<u8>, b: Seq<u8>)
    requires
        p.len() >= 2,
        p[0] == 36,
        digit_run(p, 1) == p.len() - 1,
        b.len() == 0 || !is_digit(b[0]),
    ensures
        quoted(a + p + b) == quoted(a) + seq![39u8] + p + seq![39u8] + quoted(b),
{
    lemma_quote_from_mid(a, p, b, 0);
}

/// The full preprocessing rewrite, applied to a raw SQL text.  The result is
/// for analysis only: it is never executed and never emitted.
pub fn preprocess(s: &Vec<u8>) -> (r: Vec<u8>)
    ensures
        r@ == preprocessed(s@),
{
    let t = elide_limit_offset(s);
    quote_placeholders(&t)
}

} // verus!
