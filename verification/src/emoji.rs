//! Emoji alias resolution: maps a chat emoji shortcode to a standard
//! pictograph grapheme and back.
//!
//! The chat-side table maps a chat alias (without colons) to one or more
//! candidate standard aliases (with colons, comma-separated). Candidates are
//! tried in order against the emoji crate's static table; the first hit wins.
//! An unknown alias is a soft miss, never an error.

use vstd::prelude::*;

use crate::text::chars_to_string;
use crate::text::copy_range;

verus! {

/// An association table from chat emoji alias to standard alias candidates.
///
/// A fresh entry shadows an older entry with the same key, which gives the
/// table map semantics while keeping the representation a plain vector.
#[derive(Debug, Clone)]
pub struct ZulipEmoji {
    pub pairs: Vec<(String, String)>,
}

/// The value of the first pair whose key is `k`, if any.
pub open spec fn assoc(ps: Seq<(String, String)>, k: Seq<char>) -> Option<Seq<char>>
    decreases ps.len(),
{
    if ps.len() == 0 {
        None
    } else if ps[0].0@ == k {
        Some(ps[0].1@)
    } else {
        assoc(ps.drop_first(), k)
    }
}

impl ZulipEmoji {
    pub fn new() -> (r: ZulipEmoji)
        ensures
            r.pairs@.len() == 0,
    {
        ZulipEmoji { pairs: Vec::new() }
    }

    /// Adds an alias mapping; an older mapping for the same alias is shadowed.
    pub fn insert(&mut self, key: String, value: String)
        ensures
            final(self).pairs@ == seq![(key, value)] + old(self).pairs@,
    {
        self.pairs.insert(0, (key, value));
        proof {
            assert(self.pairs@ =~= seq![(key, value)] + old(self).pairs@);
        }
    }

    /// The candidate list stored for the given chat alias.
    pub fn get_value(&self, key: &Vec<char>) -> (r: Option<String>)
        ensures
            opt_view(&r) == assoc(self.pairs@, key@),
    {
        let mut i: usize = 0;
        while i < self.pairs.len()
            invariant
                i <= self.pairs@.len(),
                forall|j: int| 0 <= j < i ==> #[trigger] self.pairs@[j].0@ != key@,
            decreases self.pairs@.len() - i,
        {
            if crate::text::str_eq_chars(self.pairs[i].0.as_str(), key) {
                proof {
                    lemma_assoc_found(self.pairs@, key@, i as int);
                }
                return Some(self.pairs[i].1.clone());
            }
            i = i + 1;
        }
        proof {
            lemma_assoc_miss(self.pairs@, key@);
        }
        None
    }
}

pub open spec fn opt_view(o: &Option<String>) -> Option<Seq<char>> {
    match o {
        Some(s) => Some(s@),
        None => None,
    }
}

pub proof fn lemma_assoc_found(ps: Seq<(String, String)>, k: Seq<char>, i: int)
    requires
        0 <= i < ps.len(),
        ps[i].0@ == k,
        forall|j: int| 0 <= j < i ==> #[trigger] ps[j].0@ != k,
    ensures
        assoc(ps, k) == Some(ps[i].1@),
    decreases i,
{
    if i > 0 {
        lemma_assoc_found(ps.drop_first(), k, i - 1);
    }
}

pub proof fn lemma_assoc_miss(ps: Seq<(String, String)>, k: Seq<char>)
    requires
        forall|j: int| 0 <= j < ps.len() ==> #[trigger] ps[j].0@ != k,
    ensures
        assoc(ps, k) == None::<Seq<char>>,
    decreases ps.len(),
{
    if ps.len() > 0 {
        lemma_assoc_miss(ps.drop_first(), k);
    }
}

/// What emojic's `parse_alias` answers for a given alias: the grapheme of the
/// emoji behind a `:name:` alias, if the alias is known.
pub uninterp spec fn emojic_lookup(alias: Seq<char>) -> Option<Seq<char>>;

/// Relies on emojic's `parse_alias`: looks the `:name:` alias up in the
/// crate's static gemoji table. The answer depends on the alias alone.
#[verifier::external_body]
fn emojic_grapheme(alias: &str) -> (r: Option<String>)
    ensures
        opt_view(&r) == emojic_lookup(alias@),
{
    emojic::parse_alias(alias).map(|e| e.grapheme.to_string())
}

/// The first position `>= i` holding a comma, or the length.
pub open spec fn find_comma(s: Seq<char>, i: int) -> int
    decreases s.len() - i,
{
    if i < 0 || i >= s.len() {
        s.len() as int
    } else if s[i] == ',' {
        i
    } else {
        find_comma(s, i + 1)
    }
}

pub proof fn lemma_find_comma_bounds(s: Seq<char>, i: int)
    requires
        0 <= i <= s.len(),
    ensures
        i <= find_comma(s, i) <= s.len(),
    decreases s.len() - i,
{
    if i < s.len() && s[i] != ',' {
        lemma_find_comma_bounds(s, i + 1);
    }
}

/// The comma-separated pieces of `s`; empty pieces are kept.
pub open spec fn split_commas(s: Seq<char>) -> Seq<Seq<char>>
    decreases s.len(),
    via split_commas_dec
{
    let k = find_comma(s, 0);
    if k >= s.len() {
        seq![s]
    } else {
        seq![s.subrange(0, k)] + split_commas(s.subrange(k + 1, s.len() as int))
    }
}

#[via_fn]
proof fn split_commas_dec(s: Seq<char>) {
    lemma_find_comma_bounds(s, 0);
}

fn find_comma_exec(v: &Vec<char>, i: usize) -> (r: usize)
    requires
        i <= v@.len(),
    ensures
        r == find_comma(v@, i as int),
    decreases v@.len() - i,
{
    if i == v.len() {
        i
    } else if v[i] == ',' {
        i
    } else {
        find_comma_exec(v, i + 1)
    }
}

fn split_commas_exec(v: &Vec<char>) -> (r: Vec<Vec<char>>)
    ensures
        r@.len() == split_commas(v@).len(),
        forall|j: int| 0 <= j < r@.len() ==> #[trigger] r@[j]@ == split_commas(v@)[j],
    decreases v@.len(),
{
    let k = find_comma_exec(v, 0);
    proof {
        lemma_find_comma_bounds(v@, 0);
    }
    if k == v.len() {
        let mut r: Vec<Vec<char>> = Vec::new();
        let piece = copy_range(v, 0, v.len());
        proof {
            assert(piece@ =~= v@);
        }
        r.push(piece);
        r
    } else {
        let head = copy_range(v, 0, k);
        let tail = copy_range(v, k + 1, v.len());
        let mut rest = split_commas_exec(&tail);
        rest.insert(0, head);
        proof {
            let ss = split_commas(v@);
            assert(ss[0] == v@.subrange(0, k as int));
            assert(forall|j: int| 1 <= j < ss.len() ==> ss[j] == split_commas(tail@)[j - 1]);
        }
        rest
    }
}

/// The grapheme of the first candidate alias that the emoji crate knows.
pub open spec fn first_resolved(cands: Seq<Seq<char>>) -> Option<Seq<char>>
    decreases cands.len(),
{
    if cands.len() == 0 {
        None
    } else {
        match emojic_lookup(cands[0]) {
            Some(g) => Some(g),
            None => first_resolved(cands.drop_first()),
        }
    }
}

proof fn lemma_first_resolved_skip(cands: Seq<Seq<char>>, i: int)
    requires
        0 <= i <= cands.len(),
        forall|j: int| 0 <= j < i ==> emojic_lookup(#[trigger] cands[j]) is None,
    ensures
        first_resolved(cands) == first_resolved(cands.skip(i)),
    decreases i,
{
    if i > 0 {
        assert(cands.len() > 0);
        assert(emojic_lookup(cands[0]) is None);
        lemma_first_resolved_skip(cands.drop_first(), i - 1);
        assert(cands.drop_first().skip(i - 1) =~= cands.skip(i));
    } else {
        assert(cands.skip(0) =~= cands);
    }
}

/// What an alias resolves to through the table: the table value's candidate
/// list is tried in order, and the first standard alias that the emoji crate
/// recognizes gives the grapheme.
pub open spec fn resolve_alias_spec(ps: Seq<(String, String)>, alias: Seq<char>) -> Option<
    Seq<char>,
> {
    match assoc(ps, alias) {
        None => None,
        Some(val) => first_resolved(split_commas(val)),
    }
}

impl ZulipEmoji {
    /// Resolves a chat alias (without colons) to a pictograph grapheme. An
    /// unknown alias, or one none of whose candidates the emoji crate
    /// recognizes, yields `None`.
    pub fn resolve_alias(&self, alias: &Vec<char>) -> (r: Option<String>)
        ensures
            opt_view(&r) == resolve_alias_spec(self.pairs@, alias@),
    {
        let value = match self.get_value(alias) {
            None => {
                return None;
            },
            Some(v) => v,
        };
        let vchars = crate::text::to_chars(value.as_str());
        let cands = split_commas_exec(&vchars);
        let ghost cs = split_commas(vchars@);
        let mut i: usize = 0;
        while i < cands.len()
            invariant
                i <= cands@.len(),
                cands@.len() == cs.len(),
                forall|j: int| 0 <= j < cands@.len() ==> #[trigger] cands@[j]@ == cs[j],
                forall|j: int| 0 <= j < i ==> emojic_lookup(#[trigger] cs[j]) is None,
                resolve_alias_spec(self.pairs@, alias@) == first_resolved(cs),
            decreases cands@.len() - i,
        {
            let cand = chars_to_string(&cands[i]);
            match emojic_grapheme(cand.as_str()) {
                Some(g) => {
                    proof {
                        lemma_first_resolved_skip(cs, i as int);
                        assert(cs.skip(i as int)[0] == cs[i as int]);
                    }
                    return Some(g);
                },
                None => {
                    i = i + 1;
                },
            }
        }
        proof {
            lemma_first_resolved_skip(cs, cs.len() as int);
            assert(cs.skip(cs.len() as int) =~= Seq::<Seq<char>>::empty());
        }
        None
    }

    /// The inverse table, from grapheme back to colon-fenced chat alias, for
    /// every entry whose stored value is itself a single resolvable alias.
    pub fn inverse(&self) -> (r: ZulipEmoji)
        ensures
            r.pairs@.len() == invert_from(self.pairs@, 0).len(),
            forall|j: int|
                0 <= j < r.pairs@.len() ==> (#[trigger] r.pairs@[j].0@, r.pairs@[j].1@)
                    == invert_from(self.pairs@, 0)[j],
    {
        let pairs = build_inverse(&self.pairs, 0);
        ZulipEmoji { pairs }
    }
}

/// The inverse-table entries contributed by the pairs from position `i` on:
/// for a pair whose value resolves to a grapheme, one entry from that grapheme
/// to the colon-fenced key.
pub open spec fn invert_from(ps: Seq<(String, String)>, i: int) -> Seq<(Seq<char>, Seq<char>)>
    decreases ps.len() - i,
{
    if i < 0 || i >= ps.len() {
        Seq::empty()
    } else {
        match emojic_lookup(ps[i].1@) {
            Some(g) => seq![(g, seq![':'] + ps[i].0@ + seq![':'])] + invert_from(ps, i + 1),
            None => invert_from(ps, i + 1),
        }
    }
}

fn build_inverse(ps: &Vec<(String, String)>, i: usize) -> (r: Vec<(String, String)>)
    requires
        i <= ps@.len(),
    ensures
        r@.len() == invert_from(ps@, i as int).len(),
        forall|j: int|
            0 <= j < r@.len() ==> (#[trigger] r@[j].0@, r@[j].1@) == invert_from(ps@, i as int)[j],
    decreases ps@.len() - i,
{
    if i == ps.len() {
        Vec::new()
    } else {
        let mut rest = build_inverse(ps, i + 1);
        match emojic_grapheme(ps[i].1.as_str()) {
            Some(g) => {
                let mut fenced = String::new();
                crate::text::push_char(&mut fenced, ':');
                let key_chars = crate::text::to_chars(ps[i].0.as_str());
                proof {
                    assert(fenced@ =~= seq![':'] + key_chars@.subrange(0, 0));
                }
                let mut k: usize = 0;
                while k < key_chars.len()
                    invariant
                        k <= key_chars@.len(),
                        key_chars@ == ps@[i as int].0@,
                        i < ps@.len(),
                        fenced@ == seq![':'] + key_chars@.subrange(0, k as int),
                    decreases key_chars@.len() - k,
                {
                    crate::text::push_char(&mut fenced, key_chars[k]);
                    k = k + 1;
                    proof {
                        assert(fenced@ =~= seq![':'] + key_chars@.subrange(0, k as int));
                    }
                }
                crate::text::push_char(&mut fenced, ':');
                proof {
                    assert(key_chars@.subrange(0, key_chars@.len() as int) =~= key_chars@);
                    assert(fenced@ =~= seq![':'] + ps@[i as int].0@ + seq![':']);
                }
                rest.insert(0, (g, fenced));
                proof {
                    let inv = invert_from(ps@, i as int);
                    assert(inv == seq![(g@, seq![':'] + ps@[i as int].0@ + seq![':'])]
                        + invert_from(ps@, i + 1));
                    assert(forall|j: int| 1 <= j < inv.len() ==> inv[j] == invert_from(ps@, i + 1)[j - 1]);
                }
                rest
            },
            None => rest,
        }
    }
}

} // verus!
