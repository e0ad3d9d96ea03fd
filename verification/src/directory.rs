//! The identity directory: canonical person name to desk, plus the
//! user-declared name-correction table.
//!
//! The desk table is rebuilt wholesale on each refresh; a failed refresh
//! leaves the previous table fully intact. The correction table is mutated one
//! entry at a time and never rebuilt. A lookup applies the correction first,
//! then the username normalizer, then the desk table.

use vstd::prelude::*;

use crate::grid::Position;
use crate::rc::Desk;
use crate::username::{normalize_spec, normalize_username};

verus! {

/// The value of the first pair whose key is `k`, if any.
pub open spec fn table_get<V>(ps: Seq<(String, V)>, k: Seq<char>) -> Option<V>
    decreases ps.len(),
{
    if ps.len() == 0 {
        None
    } else if ps[0].0@ == k {
        Some(ps[0].1)
    } else {
        table_get(ps.drop_first(), k)
    }
}

pub proof fn lemma_table_get_found<V>(ps: Seq<(String, V)>, k: Seq<char>, i: int)
    requires
        0 <= i < ps.len(),
        ps[i].0@ == k,
        forall|j: int| 0 <= j < i ==> #[trigger] ps[j].0@ != k,
    ensures
        table_get(ps, k) == Some(ps[i].1),
    decreases i,
{
    if i > 0 {
        lemma_table_get_found(ps.drop_first(), k, i - 1);
    }
}

pub proof fn lemma_table_get_miss<V>(ps: Seq<(String, V)>, k: Seq<char>)
    requires
        forall|j: int| 0 <= j < ps.len() ==> #[trigger] ps[j].0@ != k,
    ensures
        table_get(ps, k) == None::<V>,
    decreases ps.len(),
{
    if ps.len() > 0 {
        lemma_table_get_miss(ps.drop_first(), k);
    }
}

/// Removing the pair at `idx` of a duplicate-free table removes its key and
/// leaves every other key's answer alone.
pub proof fn lemma_table_get_remove<V>(ps: Seq<(String, V)>, idx: int)
    requires
        0 <= idx < ps.len(),
        forall|i: int, j: int| 0 <= i < j < ps.len() ==> (#[trigger] ps[i].0@) != #[trigger] ps[j].0@,
    ensures
        table_get(ps.remove(idx), ps[idx].0@) == None::<V>,
        forall|u: Seq<char>|
            u != ps[idx].0@ ==> #[trigger] table_get(ps.remove(idx), u) == table_get(ps, u),
    decreases idx,
{
    let removed = ps.remove(idx);
    if idx == 0 {
        assert(removed =~= ps.drop_first());
        assert(forall|j: int| 0 <= j < removed.len() ==> #[trigger] removed[j].0@ != ps[0].0@);
        lemma_table_get_miss(removed, ps[0].0@);
    } else {
        lemma_table_get_remove(ps.drop_first(), idx - 1);
        assert(removed.drop_first() =~= ps.drop_first().remove(idx - 1));
        assert(removed[0] == ps[0]);
        assert(ps.drop_first()[idx - 1] == ps[idx]);
        assert(ps[0].0@ != ps[idx].0@);
        assert(table_get(removed, ps[idx].0@) == table_get(removed.drop_first(), ps[idx].0@));
        assert forall|u: Seq<char>| u != ps[idx].0@ implies #[trigger] table_get(removed, u)
            == table_get(ps, u) by {
            if ps[0].0@ != u {
                assert(table_get(removed, u) == table_get(removed.drop_first(), u));
                assert(table_get(ps, u) == table_get(ps.drop_first(), u));
            }
        }
    }
}

/// A failure of the external directory source: the refresh is skipped and the
/// previous table remains authoritative.
#[derive(Debug)]
pub struct DirectoryFetchError {
    /// What the transport or the decoder reported.
    pub message: String,
}

/// The identity directory.
#[derive(Debug)]
pub struct Directory {
    /// Canonical owner name to desk id and desk position. Replaced wholesale
    /// by a refresh; a later record for the same name shadows an earlier one.
    entries: Vec<(String, (usize, Position))>,
    /// Chat username to corrected canonical name, independent of refreshes.
    corrections: Vec<(String, String)>,
}

/// The desk entries contributed by the records `desks[0..i]`, latest first,
/// one per record that has an owner.
pub open spec fn rebuilt_entries(desks: Seq<Desk>, i: int) -> Seq<(String, (usize, Position))>
    decreases i,
{
    if i <= 0 || i > desks.len() {
        Seq::empty()
    } else {
        match desks[i - 1].owner {
            Some(a) => seq![(a.name, (desks[i - 1].id, desks[i - 1].pos))] + rebuilt_entries(
                desks,
                i - 1,
            ),
            None => rebuilt_entries(desks, i - 1),
        }
    }
}

impl Directory {
    /// The desk table, as an association list; the first match counts.
    pub closed spec fn entries_view(self) -> Seq<(String, (usize, Position))> {
        self.entries@
    }

    /// The correction table, as an association list; the first match counts.
    pub closed spec fn corrections_view(self) -> Seq<(String, String)> {
        self.corrections@
    }

    /// The correction table never holds two entries for one chat username.
    pub closed spec fn wf(self) -> bool {
        forall|i: int, j: int|
            0 <= i < j < self.corrections@.len() ==> (#[trigger] self.corrections@[i].0@)
                != #[trigger] self.corrections@[j].0@
    }

    /// What a lookup answers: the correction table may replace the chat
    /// username, the normalizer strips its decorations, and the desk table
    /// answers for the canonical name.
    pub open spec fn lookup_spec(self, chat_username: Seq<char>) -> Option<(usize, Position)> {
        let corrected = match table_get(self.corrections_view(), chat_username) {
            Some(c) => c@,
            None => chat_username,
        };
        table_get(self.entries_view(), normalize_spec(corrected))
    }

    /// An empty directory: no desks are known until the first refresh.
    pub fn new() -> (r: Directory)
        ensures
            r.entries_view().len() == 0,
            r.corrections_view().len() == 0,
            r.wf(),
    {
        Directory { entries: Vec::new(), corrections: Vec::new() }
    }

    /// Replaces the desk table wholesale with the owners found in the desk
    /// listing; records without an owner are excluded, and a later record for
    /// the same owner wins. The correction table is untouched.
    pub fn refresh(&mut self, desks: &Vec<Desk>)
        ensures
            final(self).entries_view() == rebuilt_entries(desks@, desks@.len() as int),
            final(self).corrections_view() == old(self).corrections_view(),
            old(self).wf() ==> final(self).wf(),
    {
        let mut entries: Vec<(String, (usize, Position))> = Vec::new();
        let mut i: usize = 0;
        while i < desks.len()
            invariant
                i <= desks@.len(),
                entries@ == rebuilt_entries(desks@, i as int),
            decreases desks@.len() - i,
        {
            match &desks[i].owner {
                Some(a) => {
                    entries.insert(0, (a.name.clone(), (desks[i].id, desks[i].pos)));
                    proof {
                        assert(entries@ =~= rebuilt_entries(desks@, i + 1));
                    }
                },
                None => {
                    proof {
                        assert(entries@ =~= rebuilt_entries(desks@, i + 1));
                    }
                },
            }
            i = i + 1;
        }
        self.entries = entries;
    }

    /// Applies the outcome of a directory fetch: a successful fetch replaces
    /// the desk table wholesale; a failed fetch is skipped, and the previous
    /// table remains authoritative in full.
    pub fn apply_refresh(&mut self, fetched: Result<Vec<Desk>, DirectoryFetchError>)
        ensures
            fetched is Err ==> *final(self) == *old(self),
            fetched matches Ok(desks) ==> final(self).entries_view() == rebuilt_entries(
                desks@,
                desks@.len() as int,
            ) && final(self).corrections_view() == old(self).corrections_view(),
            old(self).wf() ==> final(self).wf(),
    {
        match fetched {
            Ok(desks) => self.refresh(&desks),
            Err(_) => {},
        }
    }

    /// Looks the chat username's desk up, by way of the correction table and
    /// the normalizer. An unknown name is a soft miss.
    pub fn lookup(&self, chat_username: &str) -> (r: Option<(usize, Position)>)
        ensures
            r == self.lookup_spec(chat_username@),
    {
        let chat_chars = crate::text::to_chars(chat_username);
        let corrected: String = match self.get_correction(&chat_chars) {
            Some(c) => c,
            None => {
                let mut s = String::new();
                s.append(chat_username);
                s
            },
        };
        let ghost corrected_spec: Seq<char> = match table_get(
            self.corrections_view(),
            chat_username@,
        ) {
            Some(c) => c@,
            None => chat_username@,
        };
        proof {
            assert(corrected@ == corrected_spec);
        }
        let canonical = normalize_username(corrected.as_str());
        let canon_chars = crate::text::to_chars(canonical.as_str());
        proof {
            assert(canon_chars@ == normalize_spec(corrected_spec));
        }
        proof {
            assert(self.lookup_spec(chat_username@) == table_get(
                self.entries_view(),
                canon_chars@,
            ));
        }
        let mut i: usize = 0;
        while i < self.entries.len()
            invariant
                i <= self.entries@.len(),
                forall|j: int| 0 <= j < i ==> #[trigger] self.entries@[j].0@ != canon_chars@,
                self.lookup_spec(chat_username@) == table_get(self.entries_view(), canon_chars@),
            decreases self.entries@.len() - i,
        {
            if crate::text::str_eq_chars(self.entries[i].0.as_str(), &canon_chars) {
                proof {
                    lemma_table_get_found(self.entries@, canon_chars@, i as int);
                }
                return Some(self.entries[i].1);
            }
            i = i + 1;
        }
        proof {
            lemma_table_get_miss(self.entries@, canon_chars@);
        }
        None
    }

    /// The corrected name declared for the chat username, or the chat
    /// username itself where none is declared.
    pub fn correction_of(&self, chat_username: &str) -> (r: String)
        ensures
            r@ == (match table_get(self.corrections_view(), chat_username@) {
                Some(c) => c@,
                None => chat_username@,
            }),
    {
        let chat_chars = crate::text::to_chars(chat_username);
        match self.get_correction(&chat_chars) {
            Some(c) => c,
            None => {
                let mut s = String::new();
                s.append(chat_username);
                s
            },
        }
    }

    /// The corrected canonical name stored for the chat username, if any.
    fn get_correction(&self, chat: &Vec<char>) -> (r: Option<String>)
        ensures
            match r {
                Some(c) => table_get(self.corrections@, chat@) == Some(c),
                None => table_get(self.corrections@, chat@) is None,
            },
    {
        let mut i: usize = 0;
        while i < self.corrections.len()
            invariant
                i <= self.corrections@.len(),
                forall|j: int| 0 <= j < i ==> #[trigger] self.corrections@[j].0@ != chat@,
            decreases self.corrections@.len() - i,
        {
            if crate::text::str_eq_chars(self.corrections[i].0.as_str(), chat) {
                proof {
                    lemma_table_get_found(self.corrections@, chat@, i as int);
                }
                return Some(self.corrections[i].1.clone());
            }
            i = i + 1;
        }
        proof {
            lemma_table_get_miss(self.corrections@, chat@);
        }
        None
    }

    /// The index of the correction entry for the chat username, if any.
    fn find_correction_index(&self, chat: &Vec<char>) -> (r: Option<usize>)
        ensures
            match r {
                Some(i) => i < self.corrections@.len() && self.corrections@[i as int].0@ == chat@
                    && (forall|j: int|
                    0 <= j < i ==> #[trigger] self.corrections@[j].0@ != chat@),
                None => forall|j: int|
                    0 <= j < self.corrections@.len() ==> #[trigger] self.corrections@[j].0@
                        != chat@,
            },
    {
        let mut i: usize = 0;
        while i < self.corrections.len()
            invariant
                i <= self.corrections@.len(),
                forall|j: int| 0 <= j < i ==> #[trigger] self.corrections@[j].0@ != chat@,
            decreases self.corrections@.len() - i,
        {
            if crate::text::str_eq_chars(self.corrections[i].0.as_str(), chat) {
                return Some(i);
            }
            i = i + 1;
        }
        None
    }

    /// Declares the corrected canonical name for a chat username, replacing an
    /// older correction. The desk table is untouched.
    pub fn set_correction(&mut self, chat_username: &str, corrected: String)
        requires
            old(self).wf(),
        ensures
            final(self).wf(),
            table_get(final(self).corrections_view(), chat_username@) == Some(corrected),
            forall|u: Seq<char>|
                u != chat_username@ ==> #[trigger] table_get(final(self).corrections_view(), u)
                    == table_get(old(self).corrections_view(), u),
            final(self).entries_view() == old(self).entries_view(),
    {
        let chat_chars = crate::text::to_chars(chat_username);
        let ghost pre = self.corrections@;
        match self.find_correction_index(&chat_chars) {
            Some(i) => {
                self.corrections.remove(i);
                proof {
                    lemma_table_get_remove(pre, i as int);
                    assert forall|j: int| 0 <= j < self.corrections@.len() implies #[trigger] self
                        .corrections@[j].0@ != chat_chars@ by {
                        if j < i {
                            assert(self.corrections@[j] == pre[j]);
                        } else {
                            assert(self.corrections@[j] == pre[j + 1]);
                        }
                    }
                }
            },
            None => {},
        }
        let ghost mid = self.corrections@;
        proof {
            assert(table_get(mid, chat_username@) is None) by {
                lemma_table_get_miss(mid, chat_username@);
            }
        }
        let mut owned = String::new();
        owned.append(chat_username);
        self.corrections.insert(0, (owned, corrected));
        proof {
            assert(self.corrections@.drop_first() =~= mid);
            assert(table_get(self.corrections@, chat_username@) == Some(corrected));
            assert forall|u: Seq<char>| u != chat_username@ implies #[trigger] table_get(
                self.corrections@,
                u,
            ) == table_get(pre, u) by {
                assert(table_get(self.corrections@, u) == table_get(mid, u));
            }
            // uniqueness is preserved: the key was absent from the middle state
            assert forall|i: int, j: int|
                0 <= i < j < self.corrections@.len() implies (#[trigger] self.corrections@[i].0@)
                != (#[trigger] self.corrections@[j].0@) by {
                if i == 0 {
                    assert(self.corrections@[j] == mid[j - 1]);
                } else {
                    assert(self.corrections@[i] == mid[i - 1]);
                    assert(self.corrections@[j] == mid[j - 1]);
                }
            }
        }
    }

    /// Removes the correction for a chat username, answering the removed
    /// canonical name, or `None` where no correction was declared. The desk
    /// table is untouched.
    pub fn clear_correction(&mut self, chat_username: &str) -> (r: Option<String>)
        requires
            old(self).wf(),
        ensures
            final(self).wf(),
            r == table_get(old(self).corrections_view(), chat_username@),
            table_get(final(self).corrections_view(), chat_username@) is None,
            forall|u: Seq<char>|
                u != chat_username@ ==> #[trigger] table_get(final(self).corrections_view(), u)
                    == table_get(old(self).corrections_view(), u),
            final(self).entries_view() == old(self).entries_view(),
    {
        let chat_chars = crate::text::to_chars(chat_username);
        let ghost pre = self.corrections@;
        match self.find_correction_index(&chat_chars) {
            Some(i) => {
                proof {
                    lemma_table_get_found(pre, chat_chars@, i as int);
                    lemma_table_get_remove(pre, i as int);
                }
                let removed = self.corrections.remove(i);
                proof {
                    assert forall|a: int, b: int|
                        0 <= a < b < self.corrections@.len() implies (#[trigger] self
                        .corrections@[a].0@) != (#[trigger] self.corrections@[b].0@) by {
                        let pa = if a < i {
                            a
                        } else {
                            a + 1
                        };
                        let pb = if b < i {
                            b
                        } else {
                            b + 1
                        };
                        assert(self.corrections@[a] == pre[pa]);
                        assert(self.corrections@[b] == pre[pb]);
                    }
                }
                Some(removed.1)
            },
            None => {
                proof {
                    lemma_table_get_miss(pre, chat_chars@);
                }
                None
            },
        }
    }
}

/// A declared correction always wins: when the correction table maps the chat
/// username to a canonical name whose normalization the desk table knows, the
/// lookup answers that desk, however the chat username itself is decorated.
pub proof fn lemma_corrected_lookup(
    dir: Directory,
    chat_username: Seq<char>,
    corrected: String,
    id: usize,
    pos: Position,
)
    requires
        table_get(dir.corrections_view(), chat_username) == Some(corrected),
        table_get(dir.entries_view(), normalize_spec(corrected@)) == Some((id, pos)),
    ensures
        dir.lookup_spec(chat_username) == Some((id, pos)),
{
}

/// A failed refresh changes no lookup answer: the prior snapshot stays fully
/// intact and queryable.
pub proof fn lemma_failed_refresh_preserves_lookups(
    pre: Directory,
    post: Directory,
    fetched: Result<Vec<Desk>, DirectoryFetchError>,
)
    requires
        fetched is Err,
        post == pre,
    ensures
        forall|u: Seq<char>| #[trigger] post.lookup_spec(u) == pre.lookup_spec(u),
{
}

} // verus!
