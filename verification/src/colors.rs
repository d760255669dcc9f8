//! The colorized segment, written to a `termcolor` buffer.
//!
//! The buffer is modeled by two uninterpreted names: [`buffer_text`], the
//! text its bytes spell, and [`buffer_ansi`], whether it renders color
//! directives as ANSI escape text.  The trusted wrappers state what
//! termcolor's in-memory `Buffer` does: plain writes append exactly their
//! text, a color directive appends the escape run of its spec on an ANSI
//! sink and nothing elsewhere, a reset appends the fixed reset escape, and
//! none of them can fail.  With that, the whole segment a record writes is a
//! function of the record and the sink kind alone.

use std::io::Write;

use termcolor::WriteColor;

use vstd::prelude::*;

use crate::render::{prep_view, shown_view};
use crate::state::PromptInfo;

verus! {

#[verifier::external_type_specification]
#[verifier::external_body]
pub struct ExBuffer(termcolor::Buffer);

#[verifier::external_type_specification]
#[verifier::external_body]
pub struct ExColorSpec(termcolor::ColorSpec);

#[verifier::external_type_specification]
#[verifier::external_body]
pub struct ExIoError(std::io::Error);

/// The text a `termcolor::Buffer` holds.
pub uninterp spec fn buffer_text(b: termcolor::Buffer) -> Seq<char>;

/// Whether the buffer renders color directives as ANSI escape text; a sink
/// that drops or records them elsewhere appends no text for a directive.
pub uninterp spec fn buffer_ansi(b: termcolor::Buffer) -> bool;

/// The foreground a `termcolor::ColorSpec` holds, as an RGB triple.
pub uninterp spec fn spec_fg(c: termcolor::ColorSpec) -> Option<(u8, u8, u8)>;

/// The escape run an ANSI sink emits for a color spec.
pub uninterp spec fn color_escape(c: termcolor::ColorSpec) -> Seq<char>;

/// The escape run an ANSI sink emits for a fresh color spec holding only
/// the given RGB foreground.
pub uninterp spec fn ansi_escape_of_fg(r: u8, g: u8, b: u8) -> Seq<char>;

/// The fixed reset escape of an ANSI sink.
pub open spec fn ansi_reset() -> Seq<char> {
    "\u{1b}[0m"@
}

/// What a color directive appends: the escape run on an ANSI sink, nothing
/// elsewhere.
pub open spec fn directive_text(ansi: bool, e: Seq<char>) -> Seq<char> {
    if ansi {
        e
    } else {
        Seq::<char>::empty()
    }
}

/// Relies on termcolor's `io::Write` impl for `Buffer`: `write_all` appends
/// exactly the given bytes to the in-memory buffer, keeps its kind, and
/// cannot fail.
#[verifier::external_body]
fn buf_write_str(buffer: &mut termcolor::Buffer, s: &str) -> (r: Result<(), std::io::Error>)
    ensures
        r is Ok,
        buffer_ansi(*final(buffer)) == buffer_ansi(*old(buffer)),
        buffer_text(*final(buffer)) == buffer_text(*old(buffer)) + s@,
{
    buffer.write_all(s.as_bytes())
}

/// Relies on termcolor's `Buffer::set_color`: on an ANSI sink it appends
/// the escape run of the spec, a deterministic function of the spec's
/// attributes; on any other in-memory sink it appends nothing.  It keeps
/// the buffer's kind and cannot fail.
#[verifier::external_body]
fn buf_set_color(buffer: &mut termcolor::Buffer, spec: &termcolor::ColorSpec) -> (r: Result<
    (),
    std::io::Error,
>)
    ensures
        r is Ok,
        buffer_ansi(*final(buffer)) == buffer_ansi(*old(buffer)),
        buffer_text(*final(buffer)) == buffer_text(*old(buffer)) + directive_text(
            buffer_ansi(*old(buffer)),
            color_escape(*spec),
        ),
{
    buffer.set_color(spec)
}

/// Relies on termcolor's `Buffer::reset`: on an ANSI sink it appends the
/// fixed reset escape, elsewhere nothing; it keeps the buffer's kind and
/// cannot fail.
#[verifier::external_body]
fn buf_reset(buffer: &mut termcolor::Buffer) -> (r: Result<(), std::io::Error>)
    ensures
        r is Ok,
        buffer_ansi(*final(buffer)) == buffer_ansi(*old(buffer)),
        buffer_text(*final(buffer)) == buffer_text(*old(buffer)) + directive_text(
            buffer_ansi(*old(buffer)),
            ansi_reset(),
        ),
{
    buffer.reset()
}

/// Relies on termcolor's `ColorSpec::new` and `ColorSpec::set_fg`: a fresh
/// spec with only the given RGB foreground set, whose escape run on an ANSI
/// sink therefore depends on that foreground alone.
#[verifier::external_body]
fn fg_rgb(r: u8, g: u8, b: u8) -> (c: termcolor::ColorSpec)
    ensures
        spec_fg(c) == Some((r, g, b)),
        color_escape(c) == ansi_escape_of_fg(r, g, b),
{
    let mut c = termcolor::ColorSpec::new();
    c.set_fg(Some(termcolor::Color::Rgb(r, g, b)));
    c
}

/// Muted tone of the preposition.
pub fn gray() -> (c: termcolor::ColorSpec)
    ensures
        spec_fg(c) == Some((0x92u8, 0x83u8, 0x74u8)),
        color_escape(c) == ansi_escape_of_fg(0x92u8, 0x83u8, 0x74u8),
{
    fg_rgb(0x92, 0x83, 0x74)
}

/// Accent tone of the shown token.
pub fn teal() -> (c: termcolor::ColorSpec)
    ensures
        spec_fg(c) == Some((0x42u8, 0x7bu8, 0x58u8)),
        color_escape(c) == ansi_escape_of_fg(0x42u8, 0x7bu8, 0x58u8),
{
    fg_rgb(0x42, 0x7b, 0x58)
}

/// Warning tone of the weird marker.
pub fn warn() -> (c: termcolor::ColorSpec)
    ensures
        spec_fg(c) == Some((0xd7u8, 0x99u8, 0x21u8)),
        color_escape(c) == ansi_escape_of_fg(0xd7u8, 0x99u8, 0x21u8),
{
    fg_rgb(0xd7, 0x99, 0x21)
}

/// Alert tone of the dirty marker.
pub fn red() -> (c: termcolor::ColorSpec)
    ensures
        spec_fg(c) == Some((0xccu8, 0x24u8, 0x1du8)),
        color_escape(c) == ansi_escape_of_fg(0xccu8, 0x24u8, 0x1du8),
{
    fg_rgb(0xcc, 0x24, 0x1d)
}

/// The whole colorized segment a record writes to a sink of the given
/// kind: the preposition in the muted tone, the shown token in the accent
/// tone, the weird and dirty marker glyphs in the warning and alert tones
/// when their flags are set, then the formatting reset.
pub open spec fn colorized_view(
    ansi: bool,
    sha: Seq<char>,
    head: Seq<char>,
    dirty: bool,
    weird: bool,
) -> Seq<char> {
    directive_text(ansi, ansi_escape_of_fg(0x92u8, 0x83u8, 0x74u8)) + prep_view(head) + " "@
        + directive_text(ansi, ansi_escape_of_fg(0x42u8, 0x7bu8, 0x58u8)) + shown_view(sha, head)
        + (if weird {
        directive_text(ansi, ansi_escape_of_fg(0xd7u8, 0x99u8, 0x21u8)) + "!"@
    } else {
        Seq::<char>::empty()
    }) + (if dirty {
        directive_text(ansi, ansi_escape_of_fg(0xccu8, 0x24u8, 0x1du8)) + "*"@
    } else {
        Seq::<char>::empty()
    }) + directive_text(ansi, ansi_reset())
}

/// Two colorized writes of equal records to sinks of the same kind append
/// byte-identical segments.
pub proof fn lemma_colorized_idempotent(
    ansi1: bool,
    sha1: Seq<char>,
    head1: Seq<char>,
    dirty1: bool,
    weird1: bool,
    ansi2: bool,
    sha2: Seq<char>,
    head2: Seq<char>,
    dirty2: bool,
    weird2: bool,
)
    requires
        ansi1 == ansi2,
        sha1 == sha2,
        head1 == head2,
        dirty1 == dirty2,
        weird1 == weird2,
    ensures
        colorized_view(ansi1, sha1, head1, dirty1, weird1) == colorized_view(
            ansi2,
            sha2,
            head2,
            dirty2,
            weird2,
        ),
{
}

impl PromptInfo {
    /// Write the colorized segment for this record to the buffer: exactly
    /// [`colorized_view`] is appended, and the buffer keeps its kind.
    #[verifier::rlimit(50)]
    pub fn write_to(&self, buffer: &mut termcolor::Buffer) -> (r: Result<(), std::io::Error>)
        ensures
            r is Ok,
            buffer_ansi(*final(buffer)) == buffer_ansi(*old(buffer)),
            buffer_text(*final(buffer)) == buffer_text(*old(buffer)) + colorized_view(
                buffer_ansi(*old(buffer)),
                self.sha@,
                self.head@,
                self.is_dirty,
                self.is_weird,
            ),
    {
        let detached = self.is_detached();
        let ghost ansi = buffer_ansi(*buffer);
        let ghost pre = buffer_text(*buffer);

        if let Err(err) = buf_set_color(buffer, &gray()) {
            return Err(err);
        }
        let ghost t1 = buffer_text(*buffer);

        if let Err(err) = buf_write_str(buffer, if detached { "at " } else { "on " }) {
            return Err(err);
        }
        let ghost t2 = buffer_text(*buffer);

        if let Err(err) = buf_set_color(buffer, &teal()) {
            return Err(err);
        }
        let ghost t3 = buffer_text(*buffer);

        if let Err(err) = buf_write_str(
            buffer,
            if detached { self.sha.as_str() } else { self.head.as_str() },
        ) {
            return Err(err);
        }
        let ghost t4 = buffer_text(*buffer);

        if self.is_weird {
            if let Err(err) = buf_set_color(buffer, &warn()) {
                return Err(err);
            }
            if let Err(err) = buf_write_str(buffer, "!") {
                return Err(err);
            }
        }
        let ghost t6 = buffer_text(*buffer);

        if self.is_dirty {
            if let Err(err) = buf_set_color(buffer, &red()) {
                return Err(err);
            }
            if let Err(err) = buf_write_str(buffer, "*") {
                return Err(err);
            }
        }
        let ghost t8 = buffer_text(*buffer);

        if let Err(err) = buf_reset(buffer) {
            return Err(err);
        }

        proof {
            reveal_strlit("at ");
            reveal_strlit("on ");
            reveal_strlit("at");
            reveal_strlit("on");
            reveal_strlit(" ");
            assert("at "@ =~= "at"@ + " "@);
            assert("on "@ =~= "on"@ + " "@);
            assert(t2 == t1 + prep_view(self.head@) + " "@);
            assert(t4 == t3 + shown_view(self.sha@, self.head@));
            assert(t6 == t4 + (if self.is_weird {
                directive_text(ansi, ansi_escape_of_fg(0xd7u8, 0x99u8, 0x21u8)) + "!"@
            } else {
                Seq::<char>::empty()
            }));
            assert(t8 == t6 + (if self.is_dirty {
                directive_text(ansi, ansi_escape_of_fg(0xccu8, 0x24u8, 0x1du8)) + "*"@
            } else {
                Seq::<char>::empty()
            }));
            let w = (if self.is_weird {
                directive_text(ansi, ansi_escape_of_fg(0xd7u8, 0x99u8, 0x21u8)) + "!"@
            } else {
                Seq::<char>::empty()
            });
            let d = (if self.is_dirty {
                directive_text(ansi, ansi_escape_of_fg(0xccu8, 0x24u8, 0x1du8)) + "*"@
            } else {
                Seq::<char>::empty()
            });
            // The buffer grew by the segments in order, grouped as written.
            assert(buffer_text(*buffer) == pre + directive_text(
                ansi,
                ansi_escape_of_fg(0x92u8, 0x83u8, 0x74u8),
            ) + prep_view(self.head@) + " "@ + directive_text(
                ansi,
                ansi_escape_of_fg(0x42u8, 0x7bu8, 0x58u8),
            ) + shown_view(self.sha@, self.head@) + w + d + directive_text(ansi, ansi_reset()));
            // Regroup: the same segments, with the whole view as one summand.
            assert(pre + colorized_view(ansi, self.sha@, self.head@, self.is_dirty, self.is_weird)
                =~= pre + directive_text(ansi, ansi_escape_of_fg(0x92u8, 0x83u8, 0x74u8))
                + prep_view(self.head@) + " "@ + directive_text(
                ansi,
                ansi_escape_of_fg(0x42u8, 0x7bu8, 0x58u8),
            ) + shown_view(self.sha@, self.head@) + w + d + directive_text(ansi, ansi_reset()));
        }
        Ok(())
    }
}

} // verus!
