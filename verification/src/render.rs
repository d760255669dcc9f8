//! Rendering of a [`PromptInfo`] record: the plain machine line, the legacy
//! escape-coded line, the bail line, and the top-level outcome of one
//! invocation.

use vstd::prelude::*;

use crate::state::{detached_sentinel, parsed_of, PromptInfo};

verus! {

/// The preposition: `at` a detached head, `on` a branch.
pub open spec fn prep_view(head: Seq<char>) -> Seq<char> {
    if head == detached_sentinel() {
        "at"@
    } else {
        "on"@
    }
}

/// The token shown after the preposition: the abbreviated commit when the
/// head is detached, the head descriptor otherwise.
pub open spec fn shown_view(sha: Seq<char>, head: Seq<char>) -> Seq<char> {
    if head == detached_sentinel() {
        sha
    } else {
        head
    }
}

/// A boolean as the `1`/`0` field of the machine line.
pub open spec fn flag_view(b: bool) -> Seq<char> {
    if b {
        "1"@
    } else {
        "0"@
    }
}

/// The machine line: available flag, preposition, shown token, dirty flag,
/// weird flag, separated by single spaces.
pub open spec fn machine_line_view(sha: Seq<char>, head: Seq<char>, dirty: bool, weird: bool) -> Seq<
    char,
> {
    "1 "@ + prep_view(head) + " "@ + shown_view(sha, head) + " "@ + flag_view(dirty) + " "@
        + flag_view(weird)
}

/// Muted escape code of the legacy line.
pub open spec fn zsh_gray() -> Seq<char> {
    "\u{1b}[38;5;242m"@
}

/// Accent escape code of the legacy line.
pub open spec fn zsh_teal() -> Seq<char> {
    "\u{1b}[38;5;023m"@
}

/// Alert escape code of the legacy line.
pub open spec fn zsh_star() -> Seq<char> {
    "\u{1b}[38;5;124m"@
}

/// Formatting reset of the legacy line.
pub open spec fn zsh_reset() -> Seq<char> {
    "\u{1b}[m"@
}

/// The legacy escape-coded line: a leading space, the preposition and shown
/// token in raw escape codes, the dirty star only, then a reset.
pub open spec fn zsh_line_view(sha: Seq<char>, head: Seq<char>, dirty: bool) -> Seq<char> {
    " "@ + zsh_gray() + prep_view(head) + " "@ + zsh_teal() + shown_view(sha, head) + zsh_star() + (
    if dirty {
        "*"@
    } else {
        Seq::<char>::empty()
    }) + zsh_reset()
}

/// The bail line: empty in legacy mode, the single `0` otherwise.
pub open spec fn bail_view(zsh: bool) -> Seq<char> {
    if zsh {
        Seq::<char>::empty()
    } else {
        "0"@
    }
}

/// Whether any of the five marker probes succeeded.
pub open spec fn any_marker(m: Seq<bool>) -> bool {
    m[0] || m[1] || m[2] || m[3] || m[4]
}

/// The machine-mode output of one whole invocation: the bail line when
/// either query is unavailable, the machine line of the parsed and probed
/// state otherwise.
pub open spec fn outcome_view(status: Option<Seq<char>>, markers: Option<Seq<bool>>) -> Seq<char> {
    match (status, markers) {
        (Some(s), Some(m)) => {
            let p = parsed_of(s);
            machine_line_view(p.sha, p.head, p.dirty, any_marker(m))
        },
        _ => bail_view(false),
    }
}

/// The legacy-mode output of one whole invocation, which probes no markers.
pub open spec fn zsh_outcome_view(status: Option<Seq<char>>) -> Seq<char> {
    match status {
        Some(s) => {
            let p = parsed_of(s);
            zsh_line_view(p.sha, p.head, p.dirty)
        },
        None => bail_view(true),
    }
}

/// The head descriptor is the detached-head sentinel if and only if the
/// rendered preposition is `at` and the shown token is the abbreviated
/// commit.
pub proof fn lemma_detached_rendering(sha: Seq<char>, head: Seq<char>)
    ensures
        head == detached_sentinel() <==> (prep_view(head) == "at"@ && shown_view(sha, head)
            == sha),
{
    reveal_strlit("at");
    reveal_strlit("on");
    if head != detached_sentinel() {
        assert(prep_view(head) == "on"@);
        assert("on"@[0] == 'o' && "at"@[0] == 'a');
    }
}

/// Unavailability of either query alone pins the output to the bail line,
/// independent of whatever the other query yielded.
pub proof fn lemma_bail_independent(
    s1: Option<Seq<char>>,
    m1: Option<Seq<bool>>,
    s2: Option<Seq<char>>,
    m2: Option<Seq<bool>>,
)
    requires
        s1 is None || m1 is None,
        s2 is None || m2 is None,
    ensures
        outcome_view(s1, m1) == outcome_view(s2, m2),
        outcome_view(s1, m1) == bail_view(false),
{
}

/// Two invocations that observe the same query results render byte-identical
/// output, in the machine mode and in the legacy mode alike.
pub proof fn lemma_idempotent(
    s1: Option<Seq<char>>,
    m1: Option<Seq<bool>>,
    s2: Option<Seq<char>>,
    m2: Option<Seq<bool>>,
)
    requires
        s1 == s2,
        m1 == m2,
    ensures
        outcome_view(s1, m1) == outcome_view(s2, m2),
        zsh_outcome_view(s1) == zsh_outcome_view(s2),
{
}

impl PromptInfo {
    /// Whether the head descriptor is the detached-head sentinel.
    pub fn is_detached(&self) -> (r: bool)
        ensures
            r == (self.head@ == detached_sentinel()),
    {
        crate::text::str_eq(self.head.as_str(), "(detached)")
    }

    /// Render the machine line for this record.
    pub fn machine_line(&self) -> (r: String)
        ensures
            r@ == machine_line_view(self.sha@, self.head@, self.is_dirty, self.is_weird),
    {
        let detached = self.is_detached();
        let mut out = String::from_str("1 ");
        out.append(if detached { "at" } else { "on" });
        out.append(" ");
        out.append(if detached { self.sha.as_str() } else { self.head.as_str() });
        out.append(" ");
        out.append(if self.is_dirty { "1" } else { "0" });
        out.append(" ");
        out.append(if self.is_weird { "1" } else { "0" });
        out
    }

    /// Render the legacy escape-coded line for this record; it carries the
    /// dirty star only, never a weird marker.
    pub fn zsh_line(&self) -> (r: String)
        ensures
            r@ == zsh_line_view(self.sha@, self.head@, self.is_dirty),
    {
        let detached = self.is_detached();
        let mut out = String::from_str(" ");
        out.append("\u{1b}[38;5;242m");
        out.append(if detached { "at" } else { "on" });
        out.append(" ");
        out.append("\u{1b}[38;5;023m");
        out.append(if detached { self.sha.as_str() } else { self.head.as_str() });
        out.append("\u{1b}[38;5;124m");
        if self.is_dirty {
            out.append("*");
        }
        out.append("\u{1b}[m");
        proof {
            assert(out@ =~= zsh_line_view(self.sha@, self.head@, self.is_dirty));
        }
        out
    }
}

/// Render the bail line for the given mode.
pub fn bail_line(zsh: bool) -> (r: String)
    ensures
        r@ == bail_view(zsh),
{
    if zsh {
        String::new()
    } else {
        String::from_str("0")
    }
}

/// One whole machine-mode invocation over plain query results: `None` stands
/// for an unavailable query; `Some` carries its captured output.
pub fn render_outcome(status: Option<&str>, markers: Option<[bool; 5]>) -> (r: String)
    ensures
        (status is None || markers is None) ==> r@ == bail_view(false),
        status is Some && markers is Some ==> r@ == outcome_view(
            Some(status->0@),
            Some(markers->0@),
        ),
{
    match (status, markers) {
        (Some(s), Some(m)) => {
            let mut info = PromptInfo::from_status(s);
            info.fill_weird(m);
            info.machine_line()
        },
        _ => bail_line(false),
    }
}

/// One whole legacy-mode invocation over the status query result alone.
pub fn render_outcome_zsh(status: Option<&str>) -> (r: String)
    ensures
        status is None ==> r@ == bail_view(true),
        status is Some ==> r@ == zsh_outcome_view(Some(status->0@)),
{
    match status {
        Some(s) => {
            let info = PromptInfo::from_status(s);
            info.zsh_line()
        },
        None => bail_line(true),
    }
}

} // verus!
