//! Character-level text utilities: whitespace classification, trimming,
//! whitespace tokenization and token joining.
//!
//! All executable functions are specified against `Seq<char>` models, so the
//! parsers built on top of them can state exact contracts.

use vstd::prelude::*;
use vstd::string::StrSliceExecFns;

verus! {

/// A character with the Unicode `White_Space` property.
pub open spec fn is_space_char(c: char) -> bool {
    let u = c as u32;
    (9 <= u && u <= 13) || u == 32 || u == 0x85 || u == 0xa0 || u == 0x1680 || (0x2000 <= u && u
        <= 0x200a) || u == 0x2028 || u == 0x2029 || u == 0x202f || u == 0x205f || u == 0x3000
}

pub fn is_space(c: char) -> (r: bool)
    ensures
        r == is_space_char(c),
{
    let u = c as u32;
    (9 <= u && u <= 13) || u == 32 || u == 0x85 || u == 0xa0 || u == 0x1680 || (0x2000 <= u && u
        <= 0x200a) || u == 0x2028 || u == 0x2029 || u == 0x202f || u == 0x205f || u == 0x3000
}

/// An ASCII decimal digit.
pub open spec fn is_digit_char(c: char) -> bool {
    let u = c as u32;
    48 <= u && u <= 57
}

pub fn is_digit(c: char) -> (r: bool)
    ensures
        r == is_digit_char(c),
{
    let u = c as u32;
    48 <= u && u <= 57
}

/// Relies on std's `String::push`: appends one character at the end.
#[verifier::external_body]
pub fn push_char(s: &mut String, c: char)
    ensures
        final(s)@ == old(s)@.push(c),
{
    s.push(c)
}

/// The characters of `s`, one vector element per `char`.
pub fn to_chars(s: &str) -> (r: Vec<char>)
    ensures
        r@ == s@,
{
    let n = s.unicode_len();
    let mut r: Vec<char> = Vec::new();
    let mut i: usize = 0;
    while i < n
        invariant
            i <= n,
            n == s@.len(),
            r@ == s@.subrange(0, i as int),
        decreases n - i,
    {
        let c = s.get_char(i);
        r.push(c);
        i = i + 1;
        proof {
            assert(r@ =~= s@.subrange(0, i as int));
        }
    }
    proof {
        assert(r@ =~= s@);
    }
    r
}

/// The string holding exactly the characters of `v`.
pub fn chars_to_string(v: &Vec<char>) -> (r: String)
    ensures
        r@ == v@,
{
    let mut r = String::new();
    let mut i: usize = 0;
    while i < v.len()
        invariant
            i <= v@.len(),
            r@ == v@.subrange(0, i as int),
        decreases v@.len() - i,
    {
        push_char(&mut r, v[i]);
        i = i + 1;
        proof {
            assert(r@ =~= v@.subrange(0, i as int));
        }
    }
    proof {
        assert(r@ =~= v@);
    }
    r
}

/// The characters `v[from..to]`.
pub fn copy_range(v: &Vec<char>, from: usize, to: usize) -> (r: Vec<char>)
    requires
        from <= to <= v@.len(),
    ensures
        r@ == v@.subrange(from as int, to as int),
{
    let mut r: Vec<char> = Vec::new();
    let mut i: usize = from;
    while i < to
        invariant
            from <= i <= to <= v@.len(),
            r@ == v@.subrange(from as int, i as int),
        decreases to - i,
    {
        r.push(v[i]);
        i = i + 1;
        proof {
            assert(r@ =~= v@.subrange(from as int, i as int));
        }
    }
    r
}

/// Whether `a` holds exactly the characters of `b`.
pub fn str_eq_chars(a: &str, b: &Vec<char>) -> (r: bool)
    ensures
        r == (a@ == b@),
{
    let n = a.unicode_len();
    if n != b.len() {
        return false;
    }
    let mut i: usize = 0;
    while i < n
        invariant
            i <= n,
            n == a@.len() == b@.len(),
            forall|k: int| 0 <= k < i ==> a@[k] == b@[k],
        decreases n - i,
    {
        if a.get_char(i) != b[i] {
            return false;
        }
        i = i + 1;
    }
    proof {
        assert(a@ =~= b@);
    }
    true
}

/// `s` with leading whitespace removed.
pub open spec fn trim_start_spec(s: Seq<char>) -> Seq<char>
    decreases s.len(),
{
    if s.len() == 0 {
        s
    } else if is_space_char(s[0]) {
        trim_start_spec(s.drop_first())
    } else {
        s
    }
}

/// `s` with trailing whitespace removed.
pub open spec fn trim_end_spec(s: Seq<char>) -> Seq<char>
    decreases s.len(),
{
    if s.len() == 0 {
        s
    } else if is_space_char(s.last()) {
        trim_end_spec(s.drop_last())
    } else {
        s
    }
}

/// `s` with surrounding whitespace removed.
pub open spec fn trim_spec(s: Seq<char>) -> Seq<char> {
    trim_start_spec(trim_end_spec(s))
}

pub proof fn lemma_trim_end_prefix(s: Seq<char>, hi: int)
    requires
        0 <= hi <= s.len(),
        forall|k: int| hi <= k < s.len() ==> is_space_char(s[k]),
    ensures
        trim_end_spec(s) == trim_end_spec(s.subrange(0, hi)),
    decreases s.len() - hi,
{
    if hi < s.len() {
        assert(trim_end_spec(s) == trim_end_spec(s.drop_last()));
        assert(s.drop_last() =~= s.subrange(0, s.len() - 1));
        lemma_trim_end_prefix(s.subrange(0, s.len() - 1), hi);
        assert(s.subrange(0, s.len() - 1).subrange(0, hi) =~= s.subrange(0, hi));
    } else {
        assert(s.subrange(0, hi) =~= s);
    }
}

pub proof fn lemma_trim_start_suffix(s: Seq<char>, lo: int)
    requires
        0 <= lo <= s.len(),
        forall|k: int| 0 <= k < lo ==> is_space_char(s[k]),
    ensures
        trim_start_spec(s) == trim_start_spec(s.subrange(lo, s.len() as int)),
    decreases lo,
{
    if lo > 0 {
        assert(trim_start_spec(s) == trim_start_spec(s.drop_first()));
        assert(s.drop_first() =~= s.subrange(1, s.len() as int));
        lemma_trim_start_suffix(s.subrange(1, s.len() as int), lo - 1);
        assert(s.subrange(1, s.len() as int).subrange(lo - 1, s.len() - 1) =~= s.subrange(
            lo,
            s.len() as int,
        ));
    } else {
        assert(s.subrange(0, s.len() as int) =~= s);
    }
}

/// `v` with surrounding whitespace removed.
pub fn trim_chars(v: &Vec<char>) -> (r: Vec<char>)
    ensures
        r@ == trim_spec(v@),
{
    let mut hi: usize = v.len();
    while hi > 0 && is_space(v[hi - 1])
        invariant
            hi <= v@.len(),
            forall|k: int| hi <= k < v@.len() ==> is_space_char(v@[k]),
        decreases hi,
    {
        hi = hi - 1;
    }
    proof {
        lemma_trim_end_prefix(v@, hi as int);
    }
    // v@.subrange(0, hi) is now end-trimmed
    let ghost te = v@.subrange(0, hi as int);
    proof {
        assert(trim_end_spec(te) == te);
    }
    let mut lo: usize = 0;
    while lo < hi && is_space(v[lo])
        invariant
            lo <= hi <= v@.len(),
            te == v@.subrange(0, hi as int),
            forall|k: int| 0 <= k < lo ==> is_space_char(te[k]),
        decreases hi - lo,
    {
        lo = lo + 1;
    }
    proof {
        lemma_trim_start_suffix(te, lo as int);
        if lo < hi {
            assert(te.subrange(lo as int, te.len() as int) =~= v@.subrange(lo as int, hi as int));
            assert(!is_space_char(te.subrange(lo as int, te.len() as int)[0]));
        } else {
            assert(te.subrange(lo as int, te.len() as int) =~= Seq::<char>::empty());
        }
        assert(trim_spec(v@) == v@.subrange(lo as int, hi as int));
    }
    copy_range(v, lo, hi)
}

/// The first position `>= i` holding a non-whitespace character, or the length.
pub open spec fn skip_spaces(s: Seq<char>, i: int) -> int
    decreases s.len() - i,
{
    if i < 0 || i >= s.len() {
        s.len() as int
    } else if is_space_char(s[i]) {
        skip_spaces(s, i + 1)
    } else {
        i
    }
}

/// The first position `>= i` holding whitespace, or the length.
pub open spec fn token_end(s: Seq<char>, i: int) -> int
    decreases s.len() - i,
{
    if i < 0 || i >= s.len() {
        s.len() as int
    } else if is_space_char(s[i]) {
        i
    } else {
        token_end(s, i + 1)
    }
}

pub proof fn lemma_skip_spaces_bounds(s: Seq<char>, i: int)
    requires
        0 <= i <= s.len(),
    ensures
        i <= skip_spaces(s, i) <= s.len(),
        skip_spaces(s, i) < s.len() ==> !is_space_char(s[skip_spaces(s, i)]),
        forall|k: int| i <= k < skip_spaces(s, i) ==> is_space_char(s[k]),
    decreases s.len() - i,
{
    if i < s.len() && is_space_char(s[i]) {
        lemma_skip_spaces_bounds(s, i + 1);
    }
}

pub proof fn lemma_token_end_bounds(s: Seq<char>, i: int)
    requires
        0 <= i <= s.len(),
    ensures
        i <= token_end(s, i) <= s.len(),
        token_end(s, i) < s.len() ==> is_space_char(s[token_end(s, i)]),
        forall|k: int| i <= k < token_end(s, i) ==> !is_space_char(s[k]),
    decreases s.len() - i,
{
    if i < s.len() && !is_space_char(s[i]) {
        lemma_token_end_bounds(s, i + 1);
    }
}

/// The whitespace-separated tokens of `s`, from position `i` on.
pub open spec fn tokens_from(s: Seq<char>, i: int) -> Seq<Seq<char>>
    decreases s.len() - i, 0int,
{
    if i < 0 || i >= s.len() {
        Seq::empty()
    } else if is_space_char(s[i]) {
        tokens_from(s, i + 1)
    } else {
        seq![s.subrange(i, token_end(s, i))] + tokens_rest(s, i + 1)
    }
}

/// Helper: the tokens after the token that started before `i` ends.
pub open spec fn tokens_rest(s: Seq<char>, i: int) -> Seq<Seq<char>>
    decreases s.len() - i, 1int,
{
    if i < 0 || i >= s.len() {
        Seq::empty()
    } else if is_space_char(s[i]) {
        tokens_from(s, i)
    } else {
        tokens_rest(s, i + 1)
    }
}

/// The tokens of the whole of `s`.
pub open spec fn tokens_of(s: Seq<char>) -> Seq<Seq<char>> {
    tokens_from(s, 0)
}

/// Inside a run of non-whitespace characters ending at `j`, the remaining
/// token list is the one that starts at `j`.
pub proof fn lemma_tokens_rest_eq(s: Seq<char>, i: int, j: int)
    requires
        0 <= i <= j <= s.len(),
        forall|k: int| i <= k < j ==> !is_space_char(s[k]),
        j < s.len() ==> is_space_char(s[j]),
    ensures
        tokens_rest(s, i) == tokens_from(s, j),
    decreases j - i,
{
    if i == j {
        if j >= s.len() {
            assert(tokens_rest(s, i) =~= tokens_from(s, j));
        }
    } else {
        lemma_tokens_rest_eq(s, i + 1, j);
    }
}

pub proof fn lemma_tokens_step(s: Seq<char>, i: int)
    requires
        0 <= i < s.len(),
        !is_space_char(s[i]),
    ensures
        tokens_from(s, i) == seq![s.subrange(i, token_end(s, i))] + tokens_from(
            s,
            token_end(s, i),
        ),
{
    lemma_token_end_bounds(s, i);
    lemma_tokens_rest_eq(s, i + 1, token_end(s, i));
}

/// Every token is nonempty.
pub proof fn lemma_tokens_nonempty(s: Seq<char>, i: int)
    requires
        0 <= i <= s.len(),
    ensures
        forall|k: int| 0 <= k < tokens_from(s, i).len() ==> #[trigger] tokens_from(s, i)[k].len()
            > 0,
    decreases s.len() - i,
{
    if i < s.len() {
        if is_space_char(s[i]) {
            lemma_tokens_nonempty(s, i + 1);
            assert forall|k: int| 0 <= k < tokens_from(s, i).len() implies #[trigger] tokens_from(
                s,
                i,
            )[k].len() > 0 by {
                assert(tokens_from(s, i) == tokens_from(s, i + 1));
                assert(tokens_from(s, i + 1)[k].len() > 0);
            }
        } else {
            let j = token_end(s, i);
            lemma_tokens_step(s, i);
            lemma_token_end_bounds(s, i);
            lemma_tokens_nonempty(s, j);
            assert forall|k: int| 0 <= k < tokens_from(s, i).len() implies #[trigger] tokens_from(
                s,
                i,
            )[k].len() > 0 by {
                if k == 0 {
                    assert(tokens_from(s, i)[0] == s.subrange(i, j));
                } else {
                    assert(tokens_from(s, i)[k] == tokens_from(s, j)[k - 1]);
                    assert(tokens_from(s, j)[k - 1].len() > 0);
                }
            }
        }
    }
}

/// Skipping leading whitespace does not change the token list.
pub proof fn lemma_tokens_skip(s: Seq<char>, i: int)
    requires
        0 <= i <= s.len(),
    ensures
        tokens_from(s, i) == tokens_from(s, skip_spaces(s, i)),
    decreases s.len() - i,
{
    if i < s.len() && is_space_char(s[i]) {
        lemma_tokens_skip(s, i + 1);
    }
}

/// The tokens joined back together with one space between adjacent tokens.
pub open spec fn join_tokens(ts: Seq<Seq<char>>) -> Seq<char>
    decreases ts.len(),
{
    if ts.len() == 0 {
        Seq::empty()
    } else if ts.len() == 1 {
        ts[0]
    } else {
        ts[0] + seq![' '] + join_tokens(ts.drop_first())
    }
}

/// The remainder of `s` from position `i` on, re-joined with single spaces.
pub open spec fn joined_from(s: Seq<char>, i: int) -> Seq<char> {
    join_tokens(tokens_from(s, i))
}

/// Joins the whitespace-separated tokens of `v[i..]` with single spaces,
/// like collecting an iterator over the remaining words.
pub fn join_tokens_from(v: &Vec<char>, i: usize) -> (r: Vec<char>)
    requires
        i <= v@.len(),
    ensures
        r@ == joined_from(v@, i as int),
    decreases v@.len() - i,
{
    if i == v.len() {
        Vec::new()
    } else if is_space(v[i]) {
        join_tokens_from(v, i + 1)
    } else {
        let ghost s = v@;
        let j = token_end_exec(v, i);
        proof {
            lemma_token_end_bounds(s, i as int);
            lemma_tokens_step(s, i as int);
        }
        let mut tok = copy_range(v, i, j);
        let mut rest = join_tokens_from(v, j);
        let ghost ts = tokens_from(s, i as int);
        let ghost rest_ts = tokens_from(s, j as int);
        if rest.len() == 0 {
            proof {
                lemma_tokens_nonempty(s, j as int);
                if rest_ts.len() > 0 {
                    assert(rest_ts[0].len() > 0);
                    lemma_join_head(rest_ts);
                    assert(join_tokens(rest_ts).len() > 0);
                }
                assert(rest_ts.len() == 0);
                assert(ts =~= seq![s.subrange(i as int, j as int)]);
            }
            tok
        } else {
            proof {
                if rest_ts.len() == 0 {
                    assert(join_tokens(rest_ts).len() == 0);
                }
                assert(rest_ts.len() > 0);
                assert(ts.len() >= 2) by {
                    assert(ts == seq![s.subrange(i as int, j as int)] + rest_ts);
                }
                assert(ts.drop_first() =~= rest_ts);
                assert(ts[0] == s.subrange(i as int, j as int));
            }
            tok.push(' ');
            tok.append(&mut rest);
            proof {
                assert(tok@ =~= s.subrange(i as int, j as int) + seq![' '] + join_tokens(rest_ts));
            }
            tok
        }
    }
}

/// The head token contributes its characters to the front of the join.
proof fn lemma_join_head(ts: Seq<Seq<char>>)
    requires
        ts.len() > 0,
    ensures
        join_tokens(ts).len() >= ts[0].len(),
        forall|k: int| 0 <= k < ts[0].len() ==> join_tokens(ts)[k] == ts[0][k],
{
    if ts.len() > 1 {
        assert(join_tokens(ts) == ts[0] + seq![' '] + join_tokens(ts.drop_first()));
    }
}

/// The first position `>= i` holding `c`, or the length.
pub open spec fn find_char(s: Seq<char>, i: int, c: char) -> int
    decreases s.len() - i,
{
    if i < 0 || i >= s.len() {
        s.len() as int
    } else if s[i] == c {
        i
    } else {
        find_char(s, i + 1, c)
    }
}

pub proof fn lemma_find_char_bounds(s: Seq<char>, i: int, c: char)
    requires
        0 <= i <= s.len(),
    ensures
        i <= find_char(s, i, c) <= s.len(),
        find_char(s, i, c) < s.len() ==> s[find_char(s, i, c)] == c,
        forall|j: int| i <= j < find_char(s, i, c) ==> s[j] != c,
    decreases s.len() - i,
{
    if i < s.len() && s[i] != c {
        lemma_find_char_bounds(s, i + 1, c);
    }
}

pub proof fn lemma_find_char_at(s: Seq<char>, i: int, c: char, k: int)
    requires
        0 <= i <= k < s.len(),
        s[k] == c,
        forall|j: int| i <= j < k ==> s[j] != c,
    ensures
        find_char(s, i, c) == k,
    decreases k - i,
{
    if i < k {
        lemma_find_char_at(s, i + 1, c, k);
    }
}

pub fn find_char_exec(v: &Vec<char>, i: usize, c: char) -> (r: usize)
    requires
        i <= v@.len(),
    ensures
        r == find_char(v@, i as int, c),
    decreases v@.len() - i,
{
    if i == v.len() {
        i
    } else if v[i] == c {
        i
    } else {
        find_char_exec(v, i + 1, c)
    }
}

/// Appending one more token appends a space and the token to the join.
pub proof fn lemma_join_push(ts: Seq<Seq<char>>, x: Seq<char>)
    requires
        ts.len() > 0,
    ensures
        join_tokens(ts.push(x)) == join_tokens(ts) + seq![' '] + x,
    decreases ts.len(),
{
    if ts.len() == 1 {
        assert(ts.push(x).drop_first() =~= seq![x]);
        assert(ts.push(x)[0] == ts[0]);
        assert(join_tokens(seq![x]) == x);
        assert(join_tokens(ts.push(x)) =~= join_tokens(ts) + seq![' '] + x);
    } else {
        lemma_join_push(ts.drop_first(), x);
        assert(ts.push(x).drop_first() =~= ts.drop_first().push(x));
        assert(ts.push(x)[0] == ts[0]);
        assert(join_tokens(ts.push(x)) =~= join_tokens(ts) + seq![' '] + x);
    }
}

/// A nonempty sequence that carries no whitespace at either end is its own
/// trim.
pub proof fn lemma_trim_fixed(s: Seq<char>)
    requires
        s.len() > 0,
        !is_space_char(s[0]),
        !is_space_char(s.last()),
    ensures
        trim_spec(s) == s,
{
    assert(trim_end_spec(s) == s);
    assert(trim_start_spec(s) == s);
}

/// Dropping one trailing space does not change the trim.
pub proof fn lemma_trim_drop_trailing_space(s: Seq<char>)
    requires
        s.len() > 0,
        is_space_char(s.last()),
    ensures
        trim_spec(s) == trim_spec(s.drop_last()),
{
    assert(trim_end_spec(s) == trim_end_spec(s.drop_last()));
}

pub fn token_end_exec(v: &Vec<char>, i: usize) -> (r: usize)
    requires
        i <= v@.len(),
    ensures
        r == token_end(v@, i as int),
    decreases v@.len() - i,
{
    if i == v.len() {
        i
    } else if is_space(v[i]) {
        i
    } else {
        token_end_exec(v, i + 1)
    }
}

pub fn skip_spaces_exec(v: &Vec<char>, i: usize) -> (r: usize)
    requires
        i <= v@.len(),
    ensures
        r == skip_spaces(v@, i as int),
    decreases v@.len() - i,
{
    if i == v.len() {
        i
    } else if is_space(v[i]) {
        skip_spaces_exec(v, i + 1)
    } else {
        i
    }
}

} // verus!
