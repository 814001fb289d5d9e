use vstd::prelude::*;

use colored::Colorize;

use crate::level::{level_name, Level};

verus! {

/// A text wrapped in an ANSI foreground color: `ESC[<code>m`, the text,
/// `ESC[0m`.
pub open spec fn ansi_painted(code: Seq<char>, s: Seq<char>) -> Seq<char> {
    "\x1b["@ + code + "m"@ + s + ansi_reset()
}

/// The ANSI sequence that ends a colored text.
pub open spec fn ansi_reset() -> Seq<char> {
    "\x1b[0m"@
}

/// The ANSI color code of a level: magenta, blue, green, yellow, red.
pub open spec fn level_color_code(level: Level) -> Seq<char> {
    match level {
        Level::Trace => "35"@,
        Level::Debug => "34"@,
        Level::Info => "32"@,
        Level::Warn => "33"@,
        Level::Error => "31"@,
    }
}

/// The colored name of a level.
pub open spec fn painted_level(level: Level) -> Seq<char> {
    ansi_painted(level_color_code(level), level_name(level))
}

/// Relies on `colored::Colorize::magenta` and the `Display` of
/// `ColoredString`: the text itself where coloring is switched off (by the
/// environment or by `colored::control`), else the text in magenta. `Display`
/// reads that switch again before writing the color's opening sequence, so a
/// switch turned off meanwhile by another thread leaves the text followed by
/// the reset sequence alone. A text without ESC has no reset sequence for
/// `colored` to escape. The other colors below behave the same way.
#[verifier::external_body]
fn paint_magenta(s: &str) -> (r: String)
    requires
        !s@.contains('\x1b'),
    ensures
        r@ == s@ || r@ == ansi_painted("35"@, s@) || r@ == s@ + ansi_reset(),
{
    s.magenta().to_string()
}

/// Relies on `colored::Colorize::blue` and the `Display` of `ColoredString`:
/// the text itself where coloring is switched off, else the text in blue.
#[verifier::external_body]
fn paint_blue(s: &str) -> (r: String)
    requires
        !s@.contains('\x1b'),
    ensures
        r@ == s@ || r@ == ansi_painted("34"@, s@) || r@ == s@ + ansi_reset(),
{
    s.blue().to_string()
}

/// Relies on `colored::Colorize::green` and the `Display` of `ColoredString`:
/// the text itself where coloring is switched off, else the text in green.
#[verifier::external_body]
fn paint_green(s: &str) -> (r: String)
    requires
        !s@.contains('\x1b'),
    ensures
        r@ == s@ || r@ == ansi_painted("32"@, s@) || r@ == s@ + ansi_reset(),
{
    s.green().to_string()
}

/// Relies on `colored::Colorize::yellow` and the `Display` of
/// `ColoredString`: the text itself where coloring is switched off, else the
/// text in yellow.
#[verifier::external_body]
fn paint_yellow(s: &str) -> (r: String)
    requires
        !s@.contains('\x1b'),
    ensures
        r@ == s@ || r@ == ansi_painted("33"@, s@) || r@ == s@ + ansi_reset(),
{
    s.yellow().to_string()
}

/// Relies on `colored::Colorize::red` and the `Display` of `ColoredString`:
/// the text itself where coloring is switched off, else the text in red.
#[verifier::external_body]
fn paint_red(s: &str) -> (r: String)
    requires
        !s@.contains('\x1b'),
    ensures
        r@ == s@ || r@ == ansi_painted("31"@, s@) || r@ == s@ + ansi_reset(),
{
    s.red().to_string()
}

/// The texts that painting a level may give: its name, its name in color,
/// or its name followed by the reset sequence when coloring was switched off
/// while the text was written.
pub open spec fn painted_outcome(level: Level, t: Seq<char>) -> bool {
    ||| t == level_name(level)
    ||| t == painted_level(level)
    ||| t == level_name(level) + ansi_reset()
}

/// The name of a level in its color, or plain where coloring is off.
pub fn paint_level(level: Level) -> (r: String)
    ensures
        painted_outcome(level, r@),
{
    let name = level.as_str();
    proof {
        reveal_strlit("TRACE");
        reveal_strlit("DEBUG");
        reveal_strlit("INFO");
        reveal_strlit("WARN");
        reveal_strlit("ERROR");
        assert(forall|i: int| 0 <= i < name@.len() ==> name@[i] != '\x1b');
    }
    match level {
        Level::Trace => paint_magenta(name),
        Level::Debug => paint_blue(name),
        Level::Info => paint_green(name),
        Level::Warn => paint_yellow(name),
        Level::Error => paint_red(name),
    }
}

} // verus!
