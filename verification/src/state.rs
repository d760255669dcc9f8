//! The repository state record and the porcelain-v2 status parser.
//!
//! The status output consists of header lines (first character `#`) followed
//! by zero or more change lines.  The parser scans lines in order, picks the
//! abbreviated commit id and the head descriptor out of the two recognized
//! headers, and stops at the first non-header line, which alone decides
//! dirtiness.

use vstd::prelude::*;

verus! {

/// The normalized repository state, built once per invocation.
#[derive(Debug)]
pub struct PromptInfo {
    /// First eight characters of the current commit id, or the placeholder.
    pub sha: String,
    /// Branch name, the detached-head sentinel, or the placeholder.
    pub head: String,
    /// Whether any tracked or untracked change exists.
    pub is_dirty: bool,
    /// Whether an in-progress special operation was detected.
    pub is_weird: bool,
}

/// Header line announcing the current commit id.
pub open spec fn oid_prefix() -> Seq<char> {
    "# branch.oid"@
}

/// Header line announcing the current branch or head state.
pub open spec fn head_prefix() -> Seq<char> {
    "# branch.head"@
}

/// Head descriptor that the tool emits when no branch is checked out.
pub open spec fn detached_sentinel() -> Seq<char> {
    "(detached)"@
}

/// Placeholder for a commit id or head descriptor that never appeared.
pub open spec fn unknown_token() -> Seq<char> {
    "??"@
}

/// A header line: its first character is the `#` marker.
pub open spec fn is_header_line(l: Seq<char>) -> bool {
    l.len() >= 1 && l[0] == '#'
}

/// `p` is a prefix of `l`.
pub open spec fn starts_with(l: Seq<char>, p: Seq<char>) -> bool {
    p.len() <= l.len() && l.take(p.len() as int) == p
}

/// Index of the first line feed in `s`, or `s.len()` if there is none.
pub open spec fn first_nl_at(s: Seq<char>) -> int
    decreases s.len(),
{
    if s.len() == 0 {
        0
    } else if s[0] == '\n' {
        0
    } else {
        1 + first_nl_at(s.skip(1))
    }
}

/// Drop one carriage return at the end of a line split off at a line feed.
pub open spec fn strip_cr(l: Seq<char>) -> Seq<char> {
    if l.len() > 0 && l[l.len() - 1] == '\r' {
        l.drop_last()
    } else {
        l
    }
}

/// The lines of `s`, split at line feeds, as `str::lines` yields them: a
/// carriage return before a line feed is dropped, a trailing line feed opens
/// no empty final line.
pub open spec fn lines_of(s: Seq<char>) -> Seq<Seq<char>>
    decreases s.len(),
    via lines_of_decreases
{
    if s.len() == 0 {
        Seq::empty()
    } else {
        let k = first_nl_at(s);
        if k < s.len() {
            seq![strip_cr(s.take(k))] + lines_of(s.skip(k + 1))
        } else {
            seq![s]
        }
    }
}

#[via_fn]
proof fn lines_of_decreases(s: Seq<char>) {
    lemma_first_nl_at_bounds(s);
}

/// `first_nl_at` stays within `[0, s.len()]`, marks a line feed when it is
/// interior, and nothing before it is a line feed.
pub proof fn lemma_first_nl_at_bounds(s: Seq<char>)
    ensures
        0 <= first_nl_at(s) <= s.len(),
        first_nl_at(s) < s.len() ==> s[first_nl_at(s)] == '\n',
        forall|t: int| 0 <= t < first_nl_at(s) ==> s[t] != '\n',
    decreases s.len(),
{
    if s.len() == 0 {
    } else if s[0] == '\n' {
    } else {
        lemma_first_nl_at_bounds(s.skip(1));
        assert forall|t: int| 0 <= t < first_nl_at(s) implies s[t] != '\n' by {
            if t >= 1 {
                assert(s.skip(1)[t - 1] == s[t]);
            }
        }
    }
}

/// The maximal suffix of `l` that holds no space: what `rsplit` by a single
/// space yields first, the token the header scan extracts.
pub open spec fn tail_token(l: Seq<char>) -> Seq<char>
    decreases l.len(),
{
    if l.len() == 0 {
        Seq::empty()
    } else if l[l.len() - 1] == ' ' {
        Seq::empty()
    } else {
        tail_token(l.drop_last()).push(l[l.len() - 1])
    }
}

/// At most the first eight characters of a token.
pub open spec fn truncate8(t: Seq<char>) -> Seq<char> {
    if t.len() <= 8 {
        t
    } else {
        t.take(8)
    }
}

/// What a full scan of the status output yields.
pub struct ParsedState {
    /// Abbreviated commit id after the scan.
    pub sha: Seq<char>,
    /// Head descriptor after the scan.
    pub head: Seq<char>,
    /// Whether a non-header line stopped the scan.
    pub dirty: bool,
}

/// One pass over the status lines.  A commit header updates the abbreviated
/// id, a head header updates the descriptor, any other header is skipped, and
/// the first non-header line ends the scan with the dirty flag set.
pub open spec fn scan_lines(ls: Seq<Seq<char>>, sha: Seq<char>, head: Seq<char>) -> ParsedState
    decreases ls.len(),
{
    if ls.len() == 0 {
        ParsedState { sha, head, dirty: false }
    } else if starts_with(ls[0], oid_prefix()) {
        scan_lines(ls.skip(1), truncate8(tail_token(ls[0])), head)
    } else if starts_with(ls[0], head_prefix()) {
        scan_lines(ls.skip(1), sha, tail_token(ls[0]))
    } else if is_header_line(ls[0]) {
        scan_lines(ls.skip(1), sha, head)
    } else {
        ParsedState { sha, head, dirty: true }
    }
}

/// The state that parsing the whole status text yields, both id and
/// descriptor starting from the placeholder.
pub open spec fn parsed_of(s: Seq<char>) -> ParsedState {
    scan_lines(lines_of(s), unknown_token(), unknown_token())
}

/// `first_nl_at` is pinned by any witness index: no line feed before `m`,
/// and `m` is the end or a line feed.
proof fn lemma_first_nl_at_value(q: Seq<char>, m: int)
    requires
        0 <= m <= q.len(),
        forall|t: int| 0 <= t < m ==> q[t] != '\n',
        m == q.len() || q[m] == '\n',
    ensures
        first_nl_at(q) == m,
    decreases q.len(),
{
    if q.len() == 0 {
    } else if q[0] == '\n' {
        assert(m == 0);
    } else {
        assert(m >= 1);
        lemma_first_nl_at_value(q.skip(1), m - 1);
    }
}

/// The suffix from the position after the last space is the tail token.
proof fn lemma_tail_token_suffix(l: Seq<char>, t: int)
    requires
        0 <= t <= l.len(),
        forall|j: int| t <= j < l.len() ==> l[j] != ' ',
        t == 0 || l[t - 1] == ' ',
    ensures
        tail_token(l) == l.skip(t),
    decreases l.len(),
{
    if l.len() == 0 {
        assert(tail_token(l) =~= l.skip(t));
    } else if t == l.len() {
        assert(l[l.len() - 1] == ' ');
        assert(tail_token(l) =~= l.skip(t));
    } else {
        assert(l[l.len() - 1] != ' ');
        lemma_tail_token_suffix(l.drop_last(), t);
        assert(tail_token(l) =~= l.skip(t));
    }
}

/// The scan reports dirty exactly when some line is not a header line.
pub proof fn lemma_scan_dirty(ls: Seq<Seq<char>>, sha: Seq<char>, head: Seq<char>)
    ensures
        scan_lines(ls, sha, head).dirty <==> exists|i: int|
            0 <= i < ls.len() && !is_header_line(ls[i]),
    decreases ls.len(),
{
    reveal_strlit("# branch.oid");
    reveal_strlit("# branch.head");
    if ls.len() == 0 {
    } else if is_header_line(ls[0]) {
        if starts_with(ls[0], oid_prefix()) {
            lemma_scan_dirty(ls.skip(1), truncate8(tail_token(ls[0])), head);
        } else if starts_with(ls[0], head_prefix()) {
            lemma_scan_dirty(ls.skip(1), sha, tail_token(ls[0]));
        } else {
            lemma_scan_dirty(ls.skip(1), sha, head);
        }
        if exists|i: int| 0 <= i < ls.skip(1).len() && !is_header_line(ls.skip(1)[i]) {
            let i = choose|i: int| 0 <= i < ls.skip(1).len() && !is_header_line(ls.skip(1)[i]);
            assert(!is_header_line(ls[i + 1]));
        }
        if exists|i: int| 0 <= i < ls.len() && !is_header_line(ls[i]) {
            let i = choose|i: int| 0 <= i < ls.len() && !is_header_line(ls[i]);
            assert(i >= 1);
            assert(!is_header_line(ls.skip(1)[i - 1]));
        }
    } else {
        if starts_with(ls[0], oid_prefix()) {
            assert(ls[0].take(oid_prefix().len() as int)[0] == ls[0][0]);
        }
        if starts_with(ls[0], head_prefix()) {
            assert(ls[0].take(head_prefix().len() as int)[0] == ls[0][0]);
        }
        assert(!is_header_line(ls[0]));
    }
}

/// Start of the tail token of `s`: the index after the last space.
fn token_start(s: &str) -> (t: usize)
    ensures
        t <= s@.len(),
        tail_token(s@) == s@.skip(t as int),
{
    let n = s.unicode_len();
    let mut t = n;
    while t > 0 && s.get_char(t - 1) != ' '
        invariant
            t <= n,
            n == s@.len(),
            forall|j: int| t <= j < n ==> s@[j] != ' ',
        decreases t,
    {
        t -= 1;
    }
    proof {
        lemma_tail_token_suffix(s@, t as int);
    }
    t
}

impl PromptInfo {
    /// Parse the porcelain-v2 status output into a fresh record, the weird
    /// flag still unset.  Dirtiness holds exactly when some line of the
    /// input is not a header line.
    pub fn from_status(status: &str) -> (r: Self)
        ensures
            r.sha@ == parsed_of(status@).sha,
            r.head@ == parsed_of(status@).head,
            r.is_dirty == parsed_of(status@).dirty,
            !r.is_weird,
            r.is_dirty <==> exists|i: int|
                0 <= i < lines_of(status@).len() && !is_header_line(lines_of(status@)[i]),
    {
        let n = status.unicode_len();
        let mut sha = String::from_str("??");
        let mut head = String::from_str("??");
        let mut dirty = false;
        let mut i: usize = 0;
        proof {
            assert(status@.skip(0) =~= status@);
        }
        while i < n
            invariant
                i <= n,
                n == status@.len(),
                !dirty ==> parsed_of(status@) == scan_lines(
                    lines_of(status@.skip(i as int)),
                    sha@,
                    head@,
                ),
                dirty ==> parsed_of(status@) == (ParsedState {
                    sha: sha@,
                    head: head@,
                    dirty: true,
                }),
                dirty ==> i == n,
            decreases n - i,
        {
            let ghost rest = status@.skip(i as int);
            // Find the end of the current line.
            let mut j = i;
            while j < n && status.get_char(j) != '\n'
                invariant
                    i <= j <= n,
                    n == status@.len(),
                    forall|t: int| i <= t < j ==> status@[t] != '\n',
                decreases n - j,
            {
                j += 1;
            }
            proof {
                assert forall|t: int| 0 <= t < j - i implies rest[t] != '\n' by {
                    assert(rest[t] == status@[t + i]);
                }
                if j < n {
                    assert(rest[j - i] == status@[j as int]);
                }
                lemma_first_nl_at_value(rest, j - i);
            }
            // Split the line off, dropping a carriage return before the feed.
            let mut e = j;
            if j < n && j > i && status.get_char(j - 1) == '\r' {
                e = j - 1;
            }
            let line = status.substring_char(i, e);
            let ghost ls = lines_of(rest);
            proof {
                if j < n {
                    assert(rest.take((j - i) as int) =~= status@.subrange(i as int, j as int));
                    assert(strip_cr(rest.take((j - i) as int)) =~= line@);
                    assert(ls == seq![line@] + lines_of(rest.skip((j - i + 1) as int)));
                    assert(rest.skip((j - i + 1) as int) =~= status@.skip(j + 1));
                    assert(ls.skip(1) =~= lines_of(status@.skip(j + 1)));
                } else {
                    assert(rest =~= line@);
                    assert(ls == seq![line@]);
                    assert(status@.skip(n as int) =~= Seq::<char>::empty());
                    assert(ls.skip(1) =~= lines_of(status@.skip(n as int)));
                }
                assert(ls[0] == line@);
            }
            let next_i = if j < n {
                j + 1
            } else {
                n
            };
            if crate::text::str_starts_with(line, "# branch.oid") {
                let t = token_start(line);
                let line_len = line.unicode_len();
                let token = if line_len - t <= 8 {
                    line.substring_char(t, line_len)
                } else {
                    line.substring_char(t, t + 8)
                };
                proof {
                    assert(line@.skip(t as int) =~= line@.subrange(t as int, line@.len() as int));
                    if line_len - t > 8 {
                        assert(tail_token(line@).take(8) =~= line@.subrange(t as int, t + 8));
                    }
                    assert(token@ == truncate8(tail_token(line@)));
                }
                sha = String::from_str(token);
                i = next_i;
            } else if crate::text::str_starts_with(line, "# branch.head") {
                let t = token_start(line);
                let token = line.substring_char(t, line.unicode_len());
                proof {
                    assert(line@.skip(t as int) =~= line@.subrange(t as int, line@.len() as int));
                }
                head = String::from_str(token);
                i = next_i;
            } else if crate::text::str_starts_with(line, "#") {
                proof {
                    reveal_strlit("#");
                    assert(line@.take(1)[0] == line@[0]);
                    assert(is_header_line(line@));
                }
                i = next_i;
            } else {
                proof {
                    reveal_strlit("#");
                    if line@.len() >= 1 && line@[0] == '#' {
                        assert(line@.take(1) =~= "#"@);
                    }
                    assert(!is_header_line(line@));
                }
                dirty = true;
                i = n;
            }
        }
        if !dirty {
            proof {
                assert(status@.skip(n as int) =~= Seq::<char>::empty());
            }
        }
        proof {
            lemma_scan_dirty(lines_of(status@), unknown_token(), unknown_token());
        }
        PromptInfo { sha, head, is_dirty: dirty, is_weird: false }
    }

    /// Fold the marker probes into the record: the weird flag becomes set
    /// exactly when it already was or some probe succeeded; nothing else
    /// changes.  The probes are tested in their fixed order.
    pub fn fill_weird(&mut self, markers: [bool; 5])
        ensures
            final(self).sha@ == old(self).sha@,
            final(self).head@ == old(self).head@,
            final(self).is_dirty == old(self).is_dirty,
            final(self).is_weird == (old(self).is_weird || markers[0] || markers[1]
                || markers[2] || markers[3] || markers[4]),
    {
        let mut k: usize = 0;
        while k < 5
            invariant
                k <= 5,
                *self == *old(self),
                forall|t: int| 0 <= t < k ==> !markers[t],
            decreases 5 - k,
        {
            if markers[k] {
                self.is_weird = true;
                return;
            }
            k += 1;
        }
    }
}

/// The relative name of marker `i` under the metadata directory, in the
/// fixed probe order.
pub open spec fn marker_spec(i: int) -> Seq<char> {
    if i == 0 {
        "rebase-apply"@
    } else if i == 1 {
        "rebase-merge"@
    } else if i == 2 {
        "MERGE_HEAD"@
    } else if i == 3 {
        "CHERRY_PICK_HEAD"@
    } else if i == 4 {
        "REVERT_HEAD"@
    } else {
        Seq::empty()
    }
}

/// The marker entry names an embedding binary probes for, in order.
pub fn marker_name(i: usize) -> (r: &'static str)
    requires
        i < 5,
    ensures
        r@ == marker_spec(i as int),
{
    if i == 0 {
        "rebase-apply"
    } else if i == 1 {
        "rebase-merge"
    } else if i == 2 {
        "MERGE_HEAD"
    } else if i == 3 {
        "CHERRY_PICK_HEAD"
    } else {
        "REVERT_HEAD"
    }
}

} // verus!
