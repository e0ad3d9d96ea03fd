//! The status entity and its textual forms.
//!
//! A status is an optional pictograph, an optional free-text message and an
//! optional expiration. Its rendered form joins the present segments with
//! single spaces; its parsed form comes from one structural pass with three
//! optional, ordered groups: a colon-fenced emoji alias, a text run free of
//! `<`, `>`, carriage return, newline and tab, and a `<time:...>` group.
//! Parsing always succeeds; an unrecognizable group is simply absent.

use vstd::prelude::*;

use crate::emoji::{opt_view, resolve_alias_spec, ZulipEmoji};
use crate::text::{
    chars_to_string,
    copy_range,
    find_char,
    find_char_exec,
    is_space,
    is_space_char,
    join_tokens,
    lemma_find_char_bounds,
    to_chars,
    trim_chars,
    trim_spec,
};
use crate::timestamp::{
    parse_iso_chars,
    parse_iso_spec,
    render_iso,
    render_iso_chars,
    Timestamp,
};

verus! {

/// A person's desk status: pictograph, text, expiration.
#[derive(Debug, Clone, PartialEq, Eq)]
pub struct Status {
    /// The pictograph shown on the desk.
    pub emoji: Option<String>,
    /// The text shown beside it; the platform forbids `<` and `>` in it.
    pub status: Option<String>,
    /// When the status expires. When text is sent without an expiration, the
    /// outbound update gets a default expiration of thirty minutes from now.
    pub expires_at: Option<Timestamp>,
}

impl Status {
    /// Any timestamp stored in the status is well-formed.
    pub open spec fn wf(self) -> bool {
        match self.expires_at {
            Some(t) => t.wf(),
            None => true,
        }
    }
}

impl Default for Status {
    /// The empty status: no pictograph, no text, no expiration.
    fn default() -> (r: Status)
        ensures
            r.emoji is None,
            r.status is None,
            r.expires_at is None,
    {
        Status { emoji: None, status: None, expires_at: None }
    }
}

/// A character the free-text group accepts.
pub open spec fn is_text_char(c: char) -> bool {
    c != '<' && c != '>' && c != '\r' && c != '\n' && c != '\t'
}

fn is_text_char_exec(c: char) -> (r: bool)
    ensures
        r == is_text_char(c),
{
    c != '<' && c != '>' && c != '\r' && c != '\n' && c != '\t'
}

/// The first position `>= i` where the free-text run stops, or the length.
pub open spec fn text_end(s: Seq<char>, i: int) -> int
    decreases s.len() - i,
{
    if i < 0 || i >= s.len() {
        s.len() as int
    } else if !is_text_char(s[i]) {
        i
    } else {
        text_end(s, i + 1)
    }
}

pub proof fn lemma_text_end_bounds(s: Seq<char>, i: int)
    requires
        0 <= i <= s.len(),
    ensures
        i <= text_end(s, i) <= s.len(),
        text_end(s, i) < s.len() ==> !is_text_char(s[text_end(s, i)]),
        forall|j: int| i <= j < text_end(s, i) ==> is_text_char(s[j]),
    decreases s.len() - i,
{
    if i < s.len() && is_text_char(s[i]) {
        lemma_text_end_bounds(s, i + 1);
    }
}

pub proof fn lemma_text_end_at(s: Seq<char>, i: int, k: int)
    requires
        0 <= i <= k <= s.len(),
        forall|j: int| i <= j < k ==> is_text_char(s[j]),
        k < s.len() ==> !is_text_char(s[k]),
    ensures
        text_end(s, i) == k,
    decreases k - i,
{
    if i < k {
        lemma_text_end_at(s, i + 1, k);
    }
}

fn text_end_exec(v: &Vec<char>, i: usize) -> (r: usize)
    requires
        i <= v@.len(),
    ensures
        r == text_end(v@, i as int),
    decreases v@.len() - i,
{
    if i == v.len() {
        i
    } else if !is_text_char_exec(v[i]) {
        i
    } else {
        text_end_exec(v, i + 1)
    }
}

/// One optional whitespace character between groups.
pub open spec fn skip_one_space(s: Seq<char>, p: int) -> int {
    if 0 <= p < s.len() && is_space_char(s[p]) {
        p + 1
    } else {
        p
    }
}

/// The raw capture of the emoji group, and the position after it: a leading
/// colon, at least one character, and the nearest closing colon.
pub open spec fn scan_emoji(s: Seq<char>) -> (Option<Seq<char>>, int) {
    if s.len() > 0 && s[0] == ':' && find_char(s, 2, ':') < s.len() {
        (Some(s.subrange(1, find_char(s, 2, ':'))), find_char(s, 2, ':') + 1)
    } else {
        (None, 0)
    }
}

/// The raw capture of the time group starting at `p`: the literal `<time:`,
/// at least one character, and the nearest `>`.
pub open spec fn scan_time(s: Seq<char>, p: int) -> Option<Seq<char>> {
    if 0 <= p && p + 6 <= s.len() && s[p] == '<' && s[p + 1] == 't' && s[p + 2] == 'i' && s[p + 3]
        == 'm' && s[p + 4] == 'e' && s[p + 5] == ':' && find_char(s, p + 7, '>') < s.len() {
        Some(s.subrange(p + 6, find_char(s, p + 7, '>')))
    } else {
        None
    }
}

/// The three raw captures of the structural pass over a status argument
/// string, in order: emoji group, text group, time group. Each group is
/// optional; what no group captures is ignored.
pub open spec fn scan_status(s: Seq<char>) -> (Option<Seq<char>>, Option<Seq<char>>, Option<
    Seq<char>,
>) {
    let (e, p0) = scan_emoji(s);
    let p1 = skip_one_space(s, p0);
    let q = text_end(s, p1);
    let t = if q > p1 {
        Some(s.subrange(p1, q))
    } else {
        None
    };
    let p2 = skip_one_space(s, q);
    (e, t, scan_time(s, p2))
}

/// The resolved pictograph of a status argument string: the trimmed emoji
/// capture, resolved through the alias table; absence and unknown aliases are
/// soft misses.
pub open spec fn spec_emoji_of(ps: Seq<(String, String)>, s: Seq<char>) -> Option<Seq<char>> {
    match scan_status(s).0 {
        None => None,
        Some(raw) => resolve_alias_spec(ps, trim_spec(raw)),
    }
}

/// The text of a status argument string: the trimmed text capture, or absent
/// when empty.
pub open spec fn spec_text_of(s: Seq<char>) -> Option<Seq<char>> {
    match scan_status(s).1 {
        None => None,
        Some(raw) => if trim_spec(raw).len() > 0 {
            Some(trim_spec(raw))
        } else {
            None
        },
    }
}

/// The expiration of a status argument string: the trimmed time capture
/// parsed as an ISO-8601 date-time; a malformed capture degrades to absence.
pub open spec fn spec_expires_of(s: Seq<char>) -> Option<Timestamp> {
    match scan_status(s).2 {
        None => None,
        Some(raw) => parse_iso_spec(trim_spec(raw)),
    }
}

/// `st` is exactly what parsing the status argument `s` against the alias
/// table `ps` yields.
pub open spec fn status_matches(st: Status, ps: Seq<(String, String)>, s: Seq<char>) -> bool {
    &&& opt_view(&st.emoji) == spec_emoji_of(ps, s)
    &&& opt_view(&st.status) == spec_text_of(s)
    &&& st.expires_at == spec_expires_of(s)
}

/// Parses the argument string of a `status` command into a status, resolving
/// the emoji alias through `table`. Parsing never fails: every group is
/// optional, and a malformed or unknown group is left absent.
pub fn parse_status_text(table: &ZulipEmoji, input: &str) -> (st: Status)
    ensures
        status_matches(st, table.pairs@, input@),
        st.wf(),
{
    let v = to_chars(input);
    let ghost s = v@;
    // emoji group
    let mut emoji: Option<String> = None;
    let p0: usize;
    if v.len() > 0 && v[0] == ':' {
        let j = if v.len() < 2 {
            v.len()
        } else {
            find_char_exec(&v, 2, ':')
        };
        proof {
            if s.len() >= 2 {
                lemma_find_char_bounds(s, 2, ':');
            }
            assert(j == find_char(s, 2, ':'));
        }
        if j < v.len() {
            let raw = copy_range(&v, 1, j);
            let alias = trim_chars(&raw);
            emoji = table.resolve_alias(&alias);
            p0 = j + 1;
        } else {
            p0 = 0;
        }
    } else {
        p0 = 0;
    }
    proof {
        assert(p0 == scan_emoji(s).1);
        match scan_emoji(s).0 {
            Some(raw) => {
                assert(opt_view(&emoji) == resolve_alias_spec(table.pairs@, trim_spec(raw)));
            },
            None => {
                assert(emoji is None);
            },
        }
    }
    // one optional whitespace
    let p1 = if p0 < v.len() && is_space(v[p0]) {
        p0 + 1
    } else {
        p0
    };
    proof {
        assert(p1 == skip_one_space(s, p0 as int));
    }
    // text group
    let q = text_end_exec(&v, p1);
    proof {
        lemma_text_end_bounds(s, p1 as int);
    }
    let status: Option<String> = if q > p1 {
        let raw = copy_range(&v, p1, q);
        let trimmed = trim_chars(&raw);
        if trimmed.len() > 0 {
            Some(chars_to_string(&trimmed))
        } else {
            None
        }
    } else {
        None
    };
    // one optional whitespace
    let p2 = if q < v.len() && is_space(v[q]) {
        q + 1
    } else {
        q
    };
    proof {
        assert(p2 == skip_one_space(s, q as int));
    }
    // time group
    let expires_at: Option<Timestamp> = if v.len() >= 6 && p2 <= v.len() - 6 && v[p2] == '<'
        && v[p2 + 1] == 't' && v[p2 + 2] == 'i' && v[p2 + 3] == 'm' && v[p2 + 4] == 'e' && v[p2
        + 5] == ':' {
        let k = if v.len() >= 7 && p2 <= v.len() - 7 {
            find_char_exec(&v, p2 + 7, '>')
        } else {
            v.len()
        };
        proof {
            if p2 + 7 <= s.len() {
                lemma_find_char_bounds(s, p2 + 7, '>');
            }
            assert(k == find_char(s, p2 + 7, '>'));
        }
        if k < v.len() {
            let raw = copy_range(&v, p2 + 6, k);
            let trimmed = trim_chars(&raw);
            parse_iso_chars(&trimmed)
        } else {
            None
        }
    } else {
        None
    };
    proof {
        match scan_time(s, p2 as int) {
            Some(raw) => {
                assert(expires_at == parse_iso_spec(trim_spec(raw)));
            },
            None => {
                assert(expires_at is None);
            },
        }
    }
    Status { emoji, status, expires_at }
}

/// Relies on time's `OffsetDateTime::now_utc`, shifted thirty minutes ahead
/// by `checked_add` and split into its calendar fields: year, month, day,
/// hour, minute, second, in UTC. The accessors document the field ranges.
#[verifier::external_body]
fn now_plus_default_expiry() -> (r: Option<(i32, u8, u8, u8, u8, u8)>)
    ensures
        r matches Some(p) ==> 1 <= p.1 <= 12 && 1 <= p.2 <= 31 && p.3 <= 23 && p.4 <= 59 && p.5
            <= 59,
{
    let t = time::OffsetDateTime::now_utc().checked_add(time::Duration::minutes(30))?;
    Some((t.year(), u8::from(t.month()), t.day(), t.hour(), t.minute(), t.second()))
}

/// The default expiration: thirty minutes from now, in UTC. The conversion of
/// the clock's answer into a timestamp is the verified `clock_to_timestamp`;
/// the answer is `None` only when the clock's fields form no well-formed
/// timestamp.
pub fn default_expiry() -> (r: Option<Timestamp>)
    ensures
        r matches Some(t) ==> t.wf() && t.offset_minutes == 0,
{
    match now_plus_default_expiry() {
        None => None,
        Some((year, month, day, hour, minute, second)) => crate::timestamp::clock_to_timestamp(
            year,
            month,
            day,
            hour,
            minute,
            second,
        ),
    }
}

impl Status {
    /// The status with a default expiration applied: a status with text but
    /// without an expiration gets exactly `default`; everything else is
    /// passed through unchanged.
    pub fn with_default_expiry(&self, default: Option<Timestamp>) -> (r: Status)
        ensures
            r.emoji == self.emoji,
            r.status == self.status,
            r.expires_at == (if self.status is Some && self.expires_at is None {
                default
            } else {
                self.expires_at
            }),
    {
        let emoji = match &self.emoji {
            Some(e) => Some(e.clone()),
            None => None,
        };
        let status = match &self.status {
            Some(s) => Some(s.clone()),
            None => None,
        };
        let expires_at = if self.status.is_some() && self.expires_at.is_none() {
            default
        } else {
            self.expires_at
        };
        Status { emoji, status, expires_at }
    }

    /// The status as sent to the platform: a status with text but without an
    /// expiration gets the default expiration of thirty minutes from now;
    /// everything else is passed through unchanged. The defaulting itself is
    /// the exact `with_default_expiry`; only which timestamp the clock gave
    /// stays unstated.
    pub fn outbound(&self) -> (r: Status)
        requires
            self.wf(),
        ensures
            r.emoji == self.emoji,
            r.status == self.status,
            r.wf(),
            !(self.status is Some && self.expires_at is None) ==> r.expires_at == self.expires_at,
            (self.status is Some && self.expires_at is None) ==> (r.expires_at matches Some(t)
                ==> t.offset_minutes == 0),
    {
        self.with_default_expiry(default_expiry())
    }
}

/// The `<time:...>` segment of a rendered status.
pub open spec fn time_segment(t: Timestamp) -> Seq<char> {
    seq!['<', 't', 'i', 'm', 'e', ':'] + render_iso(t) + seq!['>']
}

/// The nonempty segments of a status, in rendering order.
pub open spec fn status_segments(
    e: Option<Seq<char>>,
    t: Option<Seq<char>>,
    x: Option<Timestamp>,
) -> Seq<Seq<char>> {
    let es: Seq<Seq<char>> = match e {
        Some(v) => if v.len() > 0 {
            seq![v]
        } else {
            Seq::empty()
        },
        None => Seq::empty(),
    };
    let ts: Seq<Seq<char>> = match t {
        Some(v) => if v.len() > 0 {
            seq![v]
        } else {
            Seq::empty()
        },
        None => Seq::empty(),
    };
    let xs: Seq<Seq<char>> = match x {
        Some(v) => seq![time_segment(v)],
        None => Seq::empty(),
    };
    es + ts + xs
}

/// The rendered form of a status: the present, nonempty segments joined with
/// single spaces, trimmed.
pub open spec fn render_status_spec(
    e: Option<Seq<char>>,
    t: Option<Seq<char>>,
    x: Option<Timestamp>,
) -> Seq<char> {
    trim_spec(join_tokens(status_segments(e, t, x)))
}

impl Status {
    /// Renders the status for a reply: pictograph, text and `<time:...>`
    /// segment, space-separated, empty segments omitted.
    pub fn render(&self) -> (r: String)
        requires
            self.wf(),
        ensures
            r@ == render_status_spec(opt_view(&self.emoji), opt_view(&self.status), self.expires_at),
    {
        let ghost segs = status_segments(
            opt_view(&self.emoji),
            opt_view(&self.status),
            self.expires_at,
        );
        let mut parts: Vec<Vec<char>> = Vec::new();
        match &self.emoji {
            Some(e) => {
                let ec = to_chars(e.as_str());
                if ec.len() > 0 {
                    parts.push(ec);
                }
            },
            None => {},
        }
        match &self.status {
            Some(t) => {
                let tc = to_chars(t.as_str());
                if tc.len() > 0 {
                    parts.push(tc);
                }
            },
            None => {},
        }
        match &self.expires_at {
            Some(x) => {
                let mut seg: Vec<char> = Vec::new();
                seg.push('<');
                seg.push('t');
                seg.push('i');
                seg.push('m');
                seg.push('e');
                seg.push(':');
                let mut iso = render_iso_chars(x);
                seg.append(&mut iso);
                seg.push('>');
                proof {
                    assert(seg@ =~= time_segment(*x));
                }
                parts.push(seg);
            },
            None => {},
        }
        proof {
            assert(parts@.len() == segs.len());
            assert(forall|j: int| 0 <= j < parts@.len() ==> #[trigger] parts@[j]@ == segs[j]);
        }
        let joined = join_parts(&parts, Ghost(segs));
        let trimmed = trim_chars(&joined);
        chars_to_string(&trimmed)
    }
}

/// The flat character sequence of a fully-populated rendered status.
pub open spec fn rt_flat(alias: Seq<char>, text: Seq<char>, ts: Timestamp) -> Seq<char> {
    seq![':'] + alias + seq![':'] + seq![' '] + text + seq![' '] + time_segment(ts)
}

/// The character map of the flat rendered form.
proof fn lemma_rt_map(alias: Seq<char>, text: Seq<char>, ts: Timestamp)
    requires
        ts.wf(),
    ensures
        ({
            let s = rt_flat(alias, text, ts);
            let la = alias.len() as int;
            let lt = text.len() as int;
            &&& s.len() == la + lt + 36
            &&& s[0] == ':'
            &&& forall|i: int| 0 <= i < la ==> s[1 + i] == alias[i]
            &&& s[la + 1] == ':'
            &&& s[la + 2] == ' '
            &&& forall|i: int| 0 <= i < lt ==> s[la + 3 + i] == text[i]
            &&& s[la + 3 + lt] == ' '
            &&& forall|i: int|
                0 <= i < 32 ==> s[la + lt + 4 + i] == time_segment(ts)[i]
        }),
{
    crate::timestamp::lemma_render_iso_shape(ts);
    assert(time_segment(ts).len() == 32);
}

/// Rendering the three populated segments gives exactly the flat form.
proof fn lemma_rt_render(alias: Seq<char>, text: Seq<char>, ts: Timestamp)
    requires
        alias.len() > 0,
        text.len() > 0,
        ts.wf(),
    ensures
        render_status_spec(Some(seq![':'] + alias + seq![':']), Some(text), Some(ts)) == rt_flat(
            alias,
            text,
            ts,
        ),
{
    let fenced = seq![':'] + alias + seq![':'];
    let tseg = time_segment(ts);
    let s = rt_flat(alias, text, ts);
    lemma_rt_map(alias, text, ts);
    let segs = status_segments(Some(fenced), Some(text), Some(ts));
    assert(segs =~= seq![fenced, text, tseg]);
    assert(segs.drop_first() =~= seq![text, tseg]);
    assert(segs.drop_first().drop_first() =~= seq![tseg]);
    reveal_with_fuel(join_tokens, 4);
    assert(join_tokens(seq![tseg]) == tseg);
    assert(join_tokens(segs) == segs[0] + seq![' '] + join_tokens(segs.drop_first()));
    assert(join_tokens(segs.drop_first()) == text + seq![' '] + join_tokens(seq![tseg]));
    assert(join_tokens(segs) =~= s);
    crate::timestamp::lemma_render_iso_shape(ts);
    assert(s.last() == tseg[31]);
    assert(tseg[31] == '>');
    assert(s[0] == ':');
    crate::text::lemma_trim_fixed(s);
}

/// The emoji group of the flat form captures exactly the alias.
proof fn lemma_rt_emoji(alias: Seq<char>, text: Seq<char>, ts: Timestamp)
    requires
        alias.len() > 0,
        forall|k: int| 0 <= k < alias.len() ==> alias[k] != ':',
        ts.wf(),
    ensures
        scan_emoji(rt_flat(alias, text, ts)).0 == Some(alias),
        scan_emoji(rt_flat(alias, text, ts)).1 == alias.len() as int + 2,
{
    let s = rt_flat(alias, text, ts);
    let la = alias.len() as int;
    lemma_rt_map(alias, text, ts);
    crate::text::lemma_find_char_at(s, 2, ':', la + 1);
    assert(s.subrange(1, la + 1) =~= alias);
}

/// The text group of the flat form captures the text and the space after it.
proof fn lemma_rt_text(alias: Seq<char>, text: Seq<char>, ts: Timestamp)
    requires
        text.len() > 0,
        forall|k: int| 0 <= k < text.len() ==> is_text_char(#[trigger] text[k]),
        trim_spec(text) == text,
        ts.wf(),
    ensures
        text_end(rt_flat(alias, text, ts), alias.len() as int + 3) == alias.len() + text.len() + 4,
        trim_spec(
            rt_flat(alias, text, ts).subrange(
                alias.len() as int + 3,
                alias.len() as int + text.len() as int + 4,
            ),
        ) == text,
{
    let s = rt_flat(alias, text, ts);
    let la = alias.len() as int;
    let lt = text.len() as int;
    lemma_rt_map(alias, text, ts);
    assert(s[la + lt + 4] == time_segment(ts)[0]);
    assert(s[la + lt + 4] == '<');
    lemma_text_end_at(s, la + 3, la + lt + 4);
    let raw = s.subrange(la + 3, la + lt + 4);
    assert(raw =~= text + seq![' ']);
    crate::text::lemma_trim_drop_trailing_space(raw);
    assert(raw.drop_last() =~= text);
}

/// The time group of the flat form captures the rendered timestamp, which
/// parses back to the timestamp.
proof fn lemma_rt_time(alias: Seq<char>, text: Seq<char>, ts: Timestamp)
    requires
        ts.wf(),
    ensures
        scan_time(rt_flat(alias, text, ts), alias.len() as int + text.len() as int + 4) == Some(render_iso(ts)),
        parse_iso_spec(trim_spec(render_iso(ts))) == Some(ts),
{
    let s = rt_flat(alias, text, ts);
    let la = alias.len() as int;
    let lt = text.len() as int;
    let p2 = la + lt + 4;
    let tseg = time_segment(ts);
    let iso = render_iso(ts);
    lemma_rt_map(alias, text, ts);
    crate::timestamp::lemma_render_iso_shape(ts);
    assert(s[p2] == tseg[0] && s[p2 + 1] == tseg[1] && s[p2 + 2] == tseg[2] && s[p2 + 3] == tseg[3]
        && s[p2 + 4] == tseg[4] && s[p2 + 5] == tseg[5]);
    assert(s[p2] == '<' && s[p2 + 1] == 't' && s[p2 + 2] == 'i' && s[p2 + 3] == 'm' && s[p2 + 4]
        == 'e' && s[p2 + 5] == ':');
    assert(forall|i: int| 0 <= i < 25 ==> #[trigger] tseg[6 + i] == iso[i]);
    assert(forall|i: int| 6 <= i < 31 ==> #[trigger] s[p2 + i] == tseg[i]);
    assert(s[p2 + 31] == tseg[31] && tseg[31] == '>');
    assert(forall|j: int| p2 + 7 <= j < p2 + 31 ==> #[trigger] s[j] == tseg[j - p2] && s[j]
        == iso[j - p2 - 6] && s[j] != '>');
    crate::text::lemma_find_char_at(s, p2 + 7, '>', p2 + 31);
    assert(scan_time(s, p2) == Some(s.subrange(p2 + 6, p2 + 31)));
    assert(s.subrange(p2 + 6, p2 + 31) =~= iso);
    assert(iso.len() > 0 && !is_space_char(iso[0]) && !is_space_char(iso.last()));
    crate::text::lemma_trim_fixed(iso);
    crate::timestamp::lemma_iso_round_trip(ts);
}

/// The status round trip: rendering a status whose pictograph field carries a
/// colon-fenced chat alias, and re-parsing the rendered form through the
/// status sub-parser, recovers the text and the expiration exactly, and
/// resolves the emoji to exactly what the alias resolves to through the
/// table. The text must be representable: nonempty, trimmed, and free of the
/// characters the text group excludes; the alias must be nonempty, trimmed
/// and colon-free.
pub proof fn lemma_status_round_trip(
    ps: Seq<(String, String)>,
    alias: Seq<char>,
    text: Seq<char>,
    ts: Timestamp,
)
    requires
        alias.len() > 0,
        forall|k: int| 0 <= k < alias.len() ==> alias[k] != ':',
        trim_spec(alias) == alias,
        text.len() > 0,
        forall|k: int| 0 <= k < text.len() ==> is_text_char(#[trigger] text[k]),
        trim_spec(text) == text,
        ts.wf(),
    ensures
        ({
            let fenced = seq![':'] + alias + seq![':'];
            let rendered = render_status_spec(Some(fenced), Some(text), Some(ts));
            &&& spec_emoji_of(ps, rendered) == resolve_alias_spec(ps, alias)
            &&& spec_text_of(rendered) == Some(text)
            &&& spec_expires_of(rendered) == Some(ts)
        }),
{
    let s = rt_flat(alias, text, ts);
    let la = alias.len() as int;
    let lt = text.len() as int;
    lemma_rt_render(alias, text, ts);
    lemma_rt_map(alias, text, ts);
    lemma_rt_emoji(alias, text, ts);
    lemma_rt_text(alias, text, ts);
    lemma_rt_time(alias, text, ts);
    // walk the scanner across the three groups
    assert(scan_emoji(s).1 == la + 2);
    assert(skip_one_space(s, la + 2) == la + 3);
    let q = text_end(s, la + 3);
    assert(q == la + lt + 4);
    assert(q > la + 3);
    assert(skip_one_space(s, q) == q) by {
        assert(s[q] == time_segment(ts)[0]);
        assert(s[q] == '<');
    }
    assert(scan_status(s).0 == Some(alias));
    assert(scan_status(s).1 == Some(s.subrange(la + 3, q)));
    assert(scan_status(s).2 == Some(render_iso(ts)));
    assert(spec_expires_of(s) == Some(ts));
    assert(spec_text_of(s) == Some(text));
    assert(spec_emoji_of(ps, s) == resolve_alias_spec(ps, alias));
}

fn join_parts(parts: &Vec<Vec<char>>, Ghost(segs): Ghost<Seq<Seq<char>>>) -> (r: Vec<char>)
    requires
        parts@.len() == segs.len(),
        forall|j: int| 0 <= j < parts@.len() ==> #[trigger] parts@[j]@ == segs[j],
    ensures
        r@ == join_tokens(segs),
{
    let mut out: Vec<char> = Vec::new();
    let mut i: usize = 0;
    while i < parts.len()
        invariant
            i <= parts@.len(),
            parts@.len() == segs.len(),
            forall|j: int| 0 <= j < parts@.len() ==> #[trigger] parts@[j]@ == segs[j],
            out@ == join_tokens(segs.take(i as int)),
        decreases parts@.len() - i,
    {
        if i > 0 {
            out.push(' ');
        }
        let mut piece = copy_range(&parts[i], 0, parts[i].len());
        out.append(&mut piece);
        proof {
            if i == 0 {
                assert(segs.take(1int) =~= seq![segs[0]]);
                assert(out@ =~= segs[0]);
            } else {
                crate::text::lemma_join_push(segs.take(i as int), segs[i as int]);
                assert(segs.take(i as int).push(segs[i as int]) =~= segs.take(i + 1));
                assert(out@ =~= join_tokens(segs.take(i as int)) + seq![' '] + segs[i as int]);
            }
        }
        i = i + 1;
    }
    proof {
        assert(segs.take(segs.len() as int) =~= segs);
    }
    out
}

} // verus!
