//! Username normalization: strips trailing pronoun and cohort parentheticals
//! from a chat display name, leaving nickname parentheticals untouched.
//!
//! A display name looks like `Name (pronouns)? (cohort)?`, where the
//! parentheticals are optional and may appear in either order. Only a suffix
//! run of recognized parentheticals is removed, so parentheses inside the name
//! itself survive.

use vstd::prelude::*;

use crate::text::{
    copy_range,
    chars_to_string,
    is_digit,
    is_digit_char,
    is_space,
    is_space_char,
    lemma_skip_spaces_bounds,
    lemma_trim_end_prefix,
    lemma_trim_start_suffix,
    skip_spaces,
    skip_spaces_exec,
    to_chars,
    trim_end_spec,
    trim_start_spec,
};

verus! {

/// A character allowed inside a pronoun parenthetical: a lowercase ASCII
/// letter or a slash.
pub open spec fn is_pronoun_char(c: char) -> bool {
    let u = c as u32;
    (97 <= u && u <= 122) || c == '/'
}

fn is_pronoun_char_exec(c: char) -> (r: bool)
    ensures
        r == is_pronoun_char(c),
{
    let u = c as u32;
    (97 <= u && u <= 122) || c == '/'
}

/// A one-letter season code: winter, summer, fall, or mini.
pub open spec fn is_season1(c: char) -> bool {
    c == 'W' || c == 'S' || c == 'F' || c == 'm'
}

/// A two-letter season code: spring.
pub open spec fn is_season2(c0: char, c1: char) -> bool {
    c0 == 'S' && (c1 == 'P' || c1 == 'p')
}

/// A whole pronoun parenthetical such as `(he)` or `(they/them)`: parentheses
/// around a nonempty run of lowercase letters and slashes.
pub open spec fn is_pronoun_chunk(p: Seq<char>) -> bool {
    p.len() >= 3 && p[0] == '(' && p.last() == ')' && (forall|k: int|
        1 <= k < p.len() - 1 ==> is_pronoun_char(#[trigger] p[k]))
}

/// The inside of a cohort parenthetical: a season code, an optional digit,
/// an apostrophe, and a two-digit year, as in `F2'23` or `Sp'20`.
pub open spec fn is_cohort_body(b: Seq<char>) -> bool {
    ||| (b.len() == 4 && is_season1(b[0]) && b[1] == '\'' && is_digit_char(b[2]) && is_digit_char(
        b[3],
    ))
    ||| (b.len() == 5 && is_season1(b[0]) && is_digit_char(b[1]) && b[2] == '\'' && is_digit_char(
        b[3],
    ) && is_digit_char(b[4]))
    ||| (b.len() == 5 && is_season2(b[0], b[1]) && b[2] == '\'' && is_digit_char(b[3])
        && is_digit_char(b[4]))
    ||| (b.len() == 6 && is_season2(b[0], b[1]) && is_digit_char(b[2]) && b[3] == '\''
        && is_digit_char(b[4]) && is_digit_char(b[5]))
}

/// A whole cohort parenthetical such as `(F2'23)`.
pub open spec fn is_cohort_chunk(p: Seq<char>) -> bool {
    p.len() >= 3 && p[0] == '(' && p.last() == ')' && is_cohort_body(p.subrange(1, p.len() - 1))
}

/// A parenthetical that the normalizer strips from the end of a name.
pub open spec fn is_recognized_chunk(p: Seq<char>) -> bool {
    is_pronoun_chunk(p) || is_cohort_chunk(p)
}

fn is_pronoun_chunk_exec(p: &Vec<char>) -> (r: bool)
    ensures
        r == is_pronoun_chunk(p@),
{
    if p.len() < 3 || p[0] != '(' || p[p.len() - 1] != ')' {
        return false;
    }
    let mut k: usize = 1;
    while k < p.len() - 1
        invariant
            1 <= k <= p@.len() - 1,
            p@.len() >= 3,
            forall|j: int| 1 <= j < k ==> is_pronoun_char(#[trigger] p@[j]),
        decreases p@.len() - 1 - k,
    {
        if !is_pronoun_char_exec(p[k]) {
            return false;
        }
        k = k + 1;
    }
    true
}

fn is_cohort_chunk_exec(p: &Vec<char>) -> (r: bool)
    ensures
        r == is_cohort_chunk(p@),
{
    if p.len() < 3 || p[0] != '(' || p[p.len() - 1] != ')' {
        return false;
    }
    let n = p.len();
    let ghost b = p@.subrange(1, p@.len() - 1);
    let season1 = p[1] == 'W' || p[1] == 'S' || p[1] == 'F' || p[1] == 'm';
    let season2 = n >= 4 && p[1] == 'S' && (p[2] == 'P' || p[2] == 'p');
    let r = if n == 6 {
        season1 && p[2] == '\'' && is_digit(p[3]) && is_digit(p[4])
    } else if n == 7 {
        (season1 && is_digit(p[2]) && p[3] == '\'' && is_digit(p[4]) && is_digit(
            p[5],
        )) || (season2 && p[3] == '\'' && is_digit(p[4]) && is_digit(p[5]))
    } else if n == 8 {
        season2 && is_digit(p[3]) && p[4] == '\'' && is_digit(p[5]) && is_digit(
            p[6],
        )
    } else {
        false
    };
    proof {
        assert(b.len() == n - 2);
        assert(forall|j: int| 0 <= j < b.len() ==> b[j] == p@[j + 1]);
    }
    r
}

fn is_recognized_chunk_exec(p: &Vec<char>) -> (r: bool)
    ensures
        r == is_recognized_chunk(p@),
{
    if is_pronoun_chunk_exec(p) {
        true
    } else {
        is_cohort_chunk_exec(p)
    }
}

/// The index of the last `(` in `s`, or `-1` if there is none.
pub open spec fn last_open(s: Seq<char>) -> int
    decreases s.len(),
{
    if s.len() == 0 {
        -1
    } else if s.last() == '(' {
        s.len() - 1
    } else {
        last_open(s.drop_last())
    }
}

pub proof fn lemma_last_open_props(s: Seq<char>)
    ensures
        -1 <= last_open(s) < s.len(),
        last_open(s) >= 0 ==> s[last_open(s)] == '(',
        forall|j: int| last_open(s) < j < s.len() ==> s[j] != '(',
    decreases s.len(),
{
    if s.len() > 0 && s.last() != '(' {
        lemma_last_open_props(s.drop_last());
        assert(forall|j: int|
            last_open(s) < j < s.len() - 1 ==> s[j] == s.drop_last()[j] && s[j] != '(');
    }
}

pub proof fn lemma_last_open_unique(s: Seq<char>, i: int)
    requires
        0 <= i < s.len(),
        s[i] == '(',
        forall|j: int| i < j < s.len() ==> s[j] != '(',
    ensures
        last_open(s) == i,
    decreases s.len(),
{
    if s.last() != '(' {
        assert(i < s.len() - 1);
        lemma_last_open_unique(s.drop_last(), i);
    }
}

pub proof fn lemma_last_open_none(s: Seq<char>)
    requires
        forall|j: int| 0 <= j < s.len() ==> s[j] != '(',
    ensures
        last_open(s) == -1,
    decreases s.len(),
{
    if s.len() > 0 {
        lemma_last_open_none(s.drop_last());
    }
}

fn find_last_open(v: &Vec<char>) -> (r: Option<usize>)
    ensures
        match r {
            Some(k) => k == last_open(v@),
            None => last_open(v@) == -1,
        },
{
    let mut i: usize = v.len();
    while i > 0
        invariant
            i <= v@.len(),
            forall|j: int| i <= j < v@.len() ==> v@[j] != '(',
        decreases i,
    {
        if v[i - 1] == '(' {
            proof {
                lemma_last_open_unique(v@, i - 1);
            }
            return Some(i - 1);
        }
        i = i - 1;
    }
    proof {
        lemma_last_open_none(v@);
    }
    None
}

/// After end-trimming, the name still ends in a recognized parenthetical.
pub open spec fn ends_with_chunk(t: Seq<char>) -> bool {
    last_open(t) >= 0 && is_recognized_chunk(t.subrange(last_open(t), t.len() as int))
}

/// The canonical person name behind a decorated chat display name: trailing
/// whitespace and trailing recognized parentheticals are stripped repeatedly,
/// and the survivor is trimmed.
pub open spec fn normalize_spec(s: Seq<char>) -> Seq<char>
    decreases s.len(),
    via normalize_spec_dec
{
    let t = trim_end_spec(s);
    if ends_with_chunk(t) {
        normalize_spec(t.subrange(0, last_open(t)))
    } else {
        trim_start_spec(t)
    }
}

#[via_fn]
proof fn normalize_spec_dec(s: Seq<char>) {
    lemma_trim_end_len(s);
    lemma_last_open_props(trim_end_spec(s));
}

pub proof fn lemma_trim_end_len(s: Seq<char>)
    ensures
        trim_end_spec(s).len() <= s.len(),
        trim_end_spec(s).len() > 0 ==> !is_space_char(trim_end_spec(s).last()),
        trim_end_spec(s) == s.subrange(0, trim_end_spec(s).len() as int),
    decreases s.len(),
{
    if s.len() > 0 && is_space_char(s.last()) {
        lemma_trim_end_len(s.drop_last());
        assert(s.drop_last() =~= s.subrange(0, s.len() - 1));
        assert(s.subrange(0, s.len() - 1).subrange(0, trim_end_spec(s).len() as int) =~= s.subrange(
            0,
            trim_end_spec(s).len() as int,
        ));
    } else {
        assert(s.subrange(0, s.len() as int) =~= s);
    }
}

fn trim_end_chars(v: &Vec<char>) -> (r: Vec<char>)
    ensures
        r@ == trim_end_spec(v@),
{
    let mut hi: usize = v.len();
    while hi > 0 && is_space(v[hi - 1])
        invariant
            hi <= v@.len(),
            forall|k: int| hi <= k < v@.len() ==> is_space_char(v@[k]),
        decreases hi,
    {
        hi = hi - 1;
    }
    proof {
        lemma_trim_end_prefix(v@, hi as int);
    }
    copy_range(v, 0, hi)
}

fn trim_start_chars(v: &Vec<char>) -> (r: Vec<char>)
    ensures
        r@ == trim_start_spec(v@),
{
    let lo = skip_spaces_exec(v, 0);
    proof {
        lemma_skip_spaces_bounds(v@, 0);
        lemma_trim_start_suffix(v@, lo as int);
        let suf = v@.subrange(lo as int, v@.len() as int);
        if lo < v@.len() {
            assert(!is_space_char(suf[0]));
        }
        assert(trim_start_spec(suf) == suf);
    }
    copy_range(v, lo, v.len())
}

fn normalize_vec(v: Vec<char>) -> (r: Vec<char>)
    ensures
        r@ == normalize_spec(v@),
    decreases v@.len(),
{
    let ghost orig = v@;
    let t = trim_end_chars(&v);
    proof {
        lemma_trim_end_len(orig);
    }
    match find_last_open(&t) {
        None => trim_start_chars(&t),
        Some(idx) => {
            proof {
                lemma_last_open_props(t@);
            }
            let chunk = copy_range(&t, idx, t.len());
            if is_recognized_chunk_exec(&chunk) {
                let head = copy_range(&t, 0, idx);
                proof {
                    assert(head@.len() < orig.len());
                }
                normalize_vec(head)
            } else {
                trim_start_chars(&t)
            }
        },
    }
}

/// Strips the trailing pronoun and cohort parentheticals, if any, from a chat
/// display name and trims surrounding whitespace. Parentheticals that match
/// neither pattern are preserved, wherever they stand.
pub fn normalize_username(s: &str) -> (r: String)
    ensures
        r@ == normalize_spec(s@),
{
    let v = to_chars(s);
    let n = normalize_vec(v);
    chars_to_string(&n)
}

/// Facts about a normalized name: it carries no surrounding whitespace and no
/// trailing recognized parenthetical.
pub proof fn lemma_normalize_props(s: Seq<char>)
    ensures
        trim_start_spec(normalize_spec(s)) == normalize_spec(s),
        trim_end_spec(normalize_spec(s)) == normalize_spec(s),
        !ends_with_chunk(normalize_spec(s)),
    decreases s.len(),
{
    let t = trim_end_spec(s);
    lemma_trim_end_len(s);
    if ends_with_chunk(t) {
        lemma_last_open_props(t);
        lemma_normalize_props(t.subrange(0, last_open(t)));
    } else {
        let r = normalize_spec(s);
        lemma_skip_spaces_bounds(t, 0);
        let lo = skip_spaces(t, 0);
        lemma_trim_start_suffix(t, lo);
        let suf = t.subrange(lo, t.len() as int);
        if lo < t.len() {
            assert(!is_space_char(suf[0]));
        }
        assert(trim_start_spec(suf) == suf);
        assert(r == suf);
        // r carries no leading whitespace
        assert(trim_start_spec(r) == r);
        // r carries no trailing whitespace: its last character is t's last
        if r.len() > 0 {
            assert(r.last() == t.last());
            assert(!is_space_char(r.last()));
        }
        assert(trim_end_spec(r) == r);
        // r does not end with a recognized chunk, because t does not
        lemma_last_open_props(t);
        if last_open(t) == -1 {
            assert(forall|j: int| 0 <= j < r.len() ==> r[j] == t[j + lo] && r[j] != '(');
            lemma_last_open_none(r);
            assert(!ends_with_chunk(r));
        } else {
            let m = last_open(t);
            // every position before lo is whitespace, and '(' is not whitespace
            assert(m >= lo) by {
                lemma_skip_spaces_bounds(t, 0);
                if m < lo {
                    assert(is_space_char(t[m]));
                }
            }
            assert(r[m - lo] == '(');
            assert(forall|j: int| m - lo < j < r.len() ==> r[j] == t[j + lo] && r[j] != '(');
            lemma_last_open_unique(r, m - lo);
            assert(r.subrange(m - lo, r.len() as int) =~= t.subrange(m, t.len() as int));
            assert(!ends_with_chunk(r));
        }
    }
}

/// Normalization is idempotent: normalizing an already-normalized name is a
/// no-op.
pub proof fn lemma_normalize_idempotent(s: Seq<char>)
    ensures
        normalize_spec(normalize_spec(s)) == normalize_spec(s),
{
    lemma_normalize_props(s);
    let r = normalize_spec(s);
    assert(trim_end_spec(r) == r);
    assert(!ends_with_chunk(r));
    assert(normalize_spec(r) == trim_start_spec(r));
}

} // verus!
